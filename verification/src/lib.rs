//! Route index for a tree of static pages.
//!
//! A page is a file with the marker file name somewhere below a root
//! directory. The index lists, for each page, its title and the route under
//! which it is served, and is kept in a cache that is rebuilt whenever the
//! number of pages on disk differs from the number stored with the cache.
//!
//! The library works on plain values: the surrounding program walks the
//! directory, reads the files and the cache, and writes the cache back.

pub mod cache;
pub mod discovery;
pub mod handler;
pub mod title;

pub use cache::{route_cache_len, RouteCache, RouteCacheView, RouteNames, RouteNamesView};
pub use discovery::{
    add_cache, discover, route_entry, route_len, EntryPath, WalkEntry, WalkEntryView, MARKER,
    SEPARATOR,
};
pub use handler::{show_paths, RequestEvent, RequestState};
pub use title::{get_page_title, TITLE_GROUP, TITLE_PATTERN};
