//! The persisted index: one record per page, and the page count that the
//! index was built with.

use vstd::prelude::*;

verus! {

/// One discovered page.
#[derive(Debug, Clone, PartialEq, Eq)]
pub struct RouteNames {
    /// The page's display title, taken from its HTML content.
    pub name: String,
    /// The route under which the page is served.
    pub route: String,
}

/// What a [`RouteNames`] holds, as sequences of characters.
pub struct RouteNamesView {
    pub name: Seq<char>,
    pub route: Seq<char>,
}

impl DeepView for RouteNames {
    type V = RouteNamesView;

    open spec fn deep_view(&self) -> RouteNamesView {
        RouteNamesView { name: self.name@, route: self.route@ }
    }
}

/// The persisted index.
///
/// `len` is the number of page files that the walk found when the cache was
/// written. It is a staleness signal only and is not tied to the length of
/// `routes`: a page without a title is counted but not listed.
#[derive(Debug, Clone, PartialEq, Eq)]
pub struct RouteCache {
    /// The number of page files at the time of the last rebuild.
    pub len: usize,
    /// The pages that were listed, in the order in which the walk met them.
    pub routes: Vec<RouteNames>,
}

/// What a [`RouteCache`] holds.
pub struct RouteCacheView {
    pub len: nat,
    pub routes: Seq<RouteNamesView>,
}

impl DeepView for RouteCache {
    type V = RouteCacheView;

    open spec fn deep_view(&self) -> RouteCacheView {
        RouteCacheView { len: self.len as nat, routes: self.routes.deep_view() }
    }
}

impl Default for RouteCache {
    /// The empty cache: no pages counted, none listed.
    fn default() -> (cache: RouteCache)
        ensures
            cache.deep_view() == (RouteCacheView { len: 0, routes: Seq::empty() }),
    {
        let cache = RouteCache { len: 0, routes: Vec::new() };
        assert(cache.routes.deep_view() =~= Seq::empty());
        cache
    }
}

/// The page count that a stored cache stands for: its `len` where the cache
/// file could be decoded, and 0 where it could not.
pub open spec fn stored_count(decoded: Option<RouteCacheView>) -> nat {
    match decoded {
        Some(cache) => cache.len,
        None => 0,
    }
}

/// Returns the page count stored with the cache.
///
/// `decoded` is the content of the cache file, or `None` where the file was
/// empty or could not be decoded. An undecodable cache counts as the empty
/// cache, so that it differs from any tree that holds a page.
pub fn route_cache_len(decoded: Option<RouteCache>) -> (count: usize)
    ensures
        count == stored_count(decoded.deep_view()),
        decoded is None ==> count == 0,
        decoded matches Some(cache) ==> count == cache.len,
{
    match decoded {
        Some(cache) => cache.len,
        None => RouteCache::default().len,
    }
}

} // verus!
