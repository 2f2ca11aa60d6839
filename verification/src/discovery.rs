//! Page discovery: which entries of a directory walk are pages, how many
//! there are, and which route and title each of them gets.

use crate::cache::{RouteCache, RouteCacheView, RouteNames, RouteNamesView};
use crate::title::{get_page_title, page_title};
use vstd::prelude::*;
use vstd::string::StringExecFns;

verus! {

/// The file name that marks a directory as holding a page.
pub const MARKER: &'static str = "index.html";

/// The character that ends each segment of a route.
pub const SEPARATOR: char = '/';

/// What an [`EntryPath`] holds: its segments in order, each as its text or
/// `None`.
pub type PathView = Seq<Option<Seq<char>>>;

/// The path of one entry that the directory walk met.
#[derive(Debug, Clone, PartialEq, Eq)]
pub struct EntryPath {
    /// The path's segments in order, from the walk root's own segment down to
    /// the entry's file name. A segment that is not text is `None`.
    pub segments: Vec<Option<String>>,
}

impl DeepView for EntryPath {
    type V = PathView;

    open spec fn deep_view(&self) -> PathView {
        self.segments.deep_view()
    }
}

/// One entry of the directory walk together with what was read of it.
#[derive(Debug, Clone, PartialEq, Eq)]
pub struct WalkEntry {
    /// Where the walk met the entry.
    pub path: EntryPath,
    /// The lines of the file, top to bottom, or `None` where the file was not
    /// opened or could not be. Only the lines of a page are looked at.
    pub lines: Option<Vec<String>>,
}

/// What a [`WalkEntry`] holds.
pub struct WalkEntryView {
    pub path: PathView,
    pub lines: Option<Seq<Seq<char>>>,
}

impl DeepView for WalkEntry {
    type V = WalkEntryView;

    open spec fn deep_view(&self) -> WalkEntryView {
        WalkEntryView { path: self.path.deep_view(), lines: self.lines.deep_view() }
    }
}

/// A path names a page when its last segment is the marker file name.
pub open spec fn is_page_path(path: PathView) -> bool {
    path.len() > 0 && path.last() == Some(MARKER@)
}

/// The segments that make up the route of a path: all but the first, which
/// stands for the walk root, and the last, which is the file name.
pub open spec fn directories(path: PathView) -> PathView {
    if path.len() >= 2 {
        path.subrange(1, path.len() - 1)
    } else {
        Seq::empty()
    }
}

/// A segment followed by the separator.
pub open spec fn with_separator(segment: Option<Seq<char>>) -> Seq<char> {
    segment->0 + seq![SEPARATOR]
}

/// Whether every one of the segments is text.
pub open spec fn all_text(segments: PathView) -> bool {
    forall|i: int| 0 <= i < segments.len() ==> (#[trigger] segments[i]) is Some
}

/// The segments in order, each followed by the separator.
pub open spec fn joined(segments: PathView) -> Seq<char> {
    segments.flat_map(|segment: Option<Seq<char>>| with_separator(segment))
}

/// The route of the entry at `path`: its directories in path order, each
/// followed by the separator. There is none where a directory is not text.
pub open spec fn route_of(path: PathView) -> Option<Seq<char>> {
    if all_text(directories(path)) {
        Some(joined(directories(path)))
    } else {
        None
    }
}

/// The number of pages among the paths of a walk.
pub open spec fn page_count(walk: Seq<PathView>) -> nat {
    walk.filter(|path: PathView| is_page_path(path)).len()
}

/// The index record of the entry at `path`, given the title that its content
/// yields: a page with a route and a title is listed, nothing else is.
pub open spec fn entry_of(path: PathView, title: Option<Seq<char>>) -> Option<
    RouteNamesView,
> {
    if is_page_path(path) && route_of(path) is Some && title is Some {
        Some(RouteNamesView { name: title->0, route: route_of(path)->0 })
    } else {
        None
    }
}

/// The title that the content read of an entry yields.
pub open spec fn content_title(lines: Option<Seq<Seq<char>>>) -> Option<Seq<char>> {
    match lines {
        Some(lines) => page_title(lines),
        None => None,
    }
}

/// The index record of one walk entry.
pub open spec fn page_entry(entry: WalkEntryView) -> Option<RouteNamesView> {
    entry_of(entry.path, content_title(entry.lines))
}

/// The index records of a walk, in the order of the walk.
pub open spec fn discovered(pages: Seq<WalkEntryView>) -> Seq<RouteNamesView> {
    pages.filter_map(|entry: WalkEntryView| page_entry(entry))
}

/// The cache that a rebuild writes: the routes discovered in one walk and
/// the page count of another.
pub open spec fn rebuilt(
    pages: Seq<WalkEntryView>,
    walk: Seq<PathView>,
) -> RouteCacheView {
    RouteCacheView { len: page_count(walk), routes: discovered(pages) }
}

impl EntryPath {
    /// Tells whether the entry is a page: whether its file name is the
    /// marker file name.
    pub fn is_page(&self) -> (page: bool)
        ensures
            page == is_page_path(self.deep_view()),
    {
        let n = self.segments.len();
        if n == 0 {
            return false;
        }
        match &self.segments[n - 1] {
            Some(name) => {
                let marker = MARKER.to_owned();
                *name == marker
            },
            None => false,
        }
    }

    /// Derives the route of the entry from where it lies in the tree: the
    /// segments between the walk root and the file name, each followed by
    /// the separator. An entry with a segment among these that is not text
    /// has no route.
    pub fn route(&self) -> (route: Option<String>)
        ensures
            route.deep_view() == route_of(self.deep_view()),
    {
        let n = self.segments.len();
        let mut route = String::new();
        if n < 2 {
            return Some(route);
        }
        let ghost dirs = directories(self.deep_view());
        let ghost close = |segment: Option<Seq<char>>| with_separator(segment);
        let mut i: usize = 1;
        assert(dirs.take(0).flat_map(close) =~= Seq::empty());
        while i < n - 1
            invariant
                n == self.segments.len(),
                n >= 2,
                1 <= i <= n - 1,
                dirs == directories(self.deep_view()),
                close == (|segment: Option<Seq<char>>| with_separator(segment)),
                all_text(dirs.take(i - 1)),
                route@ == dirs.take(i - 1).flat_map(close),
            decreases n - i,
        {
            proof {
                dirs.lemma_flat_map_take_append(close, i - 1);
            }
            match &self.segments[i] {
                Some(segment) => {
                    route.append(segment.as_str());
                    route.append("/");
                    proof {
                        reveal_strlit("/");
                        assert forall|j: int| 0 <= j < i implies (#[trigger] dirs.take(
                            i as int,
                        )[j]) is Some by {
                            if j < i - 1 {
                                assert(dirs.take(i - 1)[j] is Some);
                            }
                        }
                    }
                },
                None => {
                    return None;
                },
            }
            i += 1;
        }
        assert(dirs.take(n - 2) =~= dirs);
        Some(route)
    }
}

/// Returns the number of pages that the walk met: the entries whose file name
/// is the marker file name, whatever they hold.
pub fn route_len(walk: &Vec<EntryPath>) -> (count: usize)
    ensures
        count == page_count(walk.deep_view()),
{
    let ghost paths = walk.deep_view();
    let ghost page = |path: PathView| is_page_path(path);
    let mut count: usize = 0;
    let mut i: usize = 0;
    proof {
        reveal(Seq::filter);
    }
    while i < walk.len()
        invariant
            0 <= i <= walk.len(),
            paths == walk.deep_view(),
            page == (|path: PathView| is_page_path(path)),
            count == paths.take(i as int).filter(page).len(),
            count <= i,
        decreases walk.len() - i,
    {
        proof {
            reveal(Seq::filter);
            assert(paths.take(i + 1).drop_last() =~= paths.take(i as int));
        }
        if walk[i].is_page() {
            count += 1;
        }
        i += 1;
    }
    assert(paths.take(walk.len() as int) =~= paths);
    count
}

/// Builds the index record of an entry from its path and the title that its
/// content yielded.
///
/// The entry is listed when it is a page, has a route and has a title; the
/// record then holds that title and that route.
pub fn route_entry(path: &EntryPath, title: Option<String>) -> (entry: Option<RouteNames>)
    ensures
        entry.deep_view() == entry_of(path.deep_view(), title.deep_view()),
{
    if !path.is_page() {
        return None;
    }
    match (path.route(), title) {
        (Some(route), Some(name)) => Some(RouteNames { name, route }),
        _ => None,
    }
}

impl WalkEntry {
    /// Builds the index record of the entry: for a page whose content was
    /// read and holds a title line, the title and the route; else nothing.
    pub fn route_names(&self) -> (entry: Option<RouteNames>)
        ensures
            entry.deep_view() == page_entry(self.deep_view()),
    {
        if !self.path.is_page() {
            return None;
        }
        let title = match &self.lines {
            Some(lines) => get_page_title(lines),
            None => None,
        };
        route_entry(&self.path, title)
    }
}

/// Lists the pages of a walk: one record for each entry that is a page with a
/// route and a title, in the order of the walk. Entries that fail at any of
/// these are left out without an error.
pub fn discover(pages: &Vec<WalkEntry>) -> (routes: Vec<RouteNames>)
    ensures
        routes.deep_view() == discovered(pages.deep_view()),
{
    let ghost entries = pages.deep_view();
    let ghost record = |entry: WalkEntryView| page_entry(entry);
    let mut routes: Vec<RouteNames> = Vec::new();
    let mut i: usize = 0;
    while i < pages.len()
        invariant
            0 <= i <= pages.len(),
            entries == pages.deep_view(),
            record == (|entry: WalkEntryView| page_entry(entry)),
            routes.deep_view() == entries.take(i as int).filter_map(record),
        decreases pages.len() - i,
    {
        proof {
            entries.lemma_filter_map_take_succ(record, i as int);
        }
        match pages[i].route_names() {
            Some(entry) => {
                routes.push(entry);
            },
            None => {},
        }
        i += 1;
    }
    assert(entries.take(pages.len() as int) =~= entries);
    routes
}

/// Rebuilds the cache: the routes discovered in `pages` and the page count
/// of `walk`, two walks of the same tree taken one after the other.
pub fn add_cache(pages: &Vec<WalkEntry>, walk: &Vec<EntryPath>) -> (cache: RouteCache)
    ensures
        cache.deep_view() == rebuilt(pages.deep_view(), walk.deep_view()),
{
    let routes = discover(pages);
    let len = route_len(walk);
    RouteCache { len, routes }
}

/// A route is built from the directory segments alone: it is empty for a
/// page that lies directly in the walk root, and else it ends with the
/// separator.
pub proof fn lemma_route_ends_with_separator(path: PathView)
    requires
        route_of(path) is Some,
    ensures
        directories(path).len() == 0 ==> route_of(path)->0.len() == 0,
        directories(path).len() > 0 ==> route_of(path)->0.len() > 0 && route_of(path)->0.last()
            == SEPARATOR,
{
    let dirs = directories(path);
    let close = |segment: Option<Seq<char>>| with_separator(segment);
    if dirs.len() > 0 {
        assert(dirs =~= dirs.drop_last().push(dirs.last()));
        dirs.drop_last().lemma_flat_map_push(close, dirs.last());
    }
}

/// The paths of the entries of a walk.
pub open spec fn paths_of(pages: Seq<WalkEntryView>) -> Seq<PathView> {
    pages.map_values(|entry: WalkEntryView| entry.path)
}

/// A walk lists no more pages than it counts: the count goes by the file
/// name alone, and a record needs a route and a title besides.
pub proof fn lemma_listed_pages_are_counted(pages: Seq<WalkEntryView>)
    ensures
        discovered(pages).len() <= page_count(paths_of(pages)),
    decreases pages.len(),
{
    reveal(Seq::filter);
    if pages.len() > 0 {
        lemma_listed_pages_are_counted(pages.drop_last());
        assert(paths_of(pages).drop_last() =~= paths_of(pages.drop_last()));
    }
}

/// Filtering a sequence and then forgetting its order gives what filtering
/// its multiset gives.
proof fn lemma_filter_to_multiset<A>(s: Seq<A>, pred: spec_fn(A) -> bool)
    ensures
        s.filter(pred).to_multiset() =~= s.to_multiset().filter(pred),
    decreases s.len(),
{
    broadcast use vstd::multiset::group_multiset_axioms;

    reveal(Seq::filter);
    if s.len() == 0 {
        s.to_multiset_ensures();
    } else {
        let front = s.drop_last();
        let last = s.last();
        lemma_filter_to_multiset(front, pred);
        assert(s =~= front.push(last));
        vstd::seq_lib::to_multiset_build(front, last);
        if pred(last) {
            vstd::seq_lib::to_multiset_build(front.filter(pred), last);
        }
    }
}

/// The page count of a walk does not depend on the order of the walk.
pub proof fn lemma_page_count_order_independent(
    walk: Seq<PathView>,
    other: Seq<PathView>,
)
    requires
        walk.to_multiset() == other.to_multiset(),
    ensures
        page_count(walk) == page_count(other),
{
    let page = |path: PathView| is_page_path(path);
    lemma_filter_to_multiset(walk, page);
    lemma_filter_to_multiset(other, page);
    walk.filter(page).to_multiset_ensures();
    other.filter(page).to_multiset_ensures();
}

/// What `filter_map` keeps of an element of the sequence is in its result.
proof fn lemma_filter_map_keeps<A, B>(s: Seq<A>, f: spec_fn(A) -> Option<B>, i: int)
    requires
        0 <= i < s.len(),
        f(s[i]) is Some,
    ensures
        s.filter_map(f).contains(f(s[i])->0),
    decreases s.len(),
{
    let front = s.drop_last();
    let kept = s.filter_map(f);
    if i == s.len() - 1 {
        assert(kept[kept.len() - 1] == f(s[i])->0);
    } else {
        lemma_filter_map_keeps(front, f, i);
        let j = choose|j: int| 0 <= j < front.filter_map(f).len() && front.filter_map(f)[j] == f(
            s[i],
        )->0;
        assert(kept[j] == f(s[i])->0);
    }
}

/// The records of a walk are exactly the records of its entries: nothing is
/// listed that no entry yields, and no entry that yields a record is left
/// out. In particular a page without a title line is not listed at all.
pub proof fn lemma_discovered_records(pages: Seq<WalkEntryView>, record: RouteNamesView)
    ensures
        discovered(pages).contains(record) <==> exists|i: int|
            0 <= i < pages.len() && #[trigger] page_entry(pages[i]) == Some(record),
{
    let f = |entry: WalkEntryView| page_entry(entry);
    if discovered(pages).contains(record) {
        pages.lemma_filter_map_contains(f, record);
    }
    if exists|i: int| 0 <= i < pages.len() && #[trigger] page_entry(pages[i]) == Some(record) {
        let i = choose|i: int| 0 <= i < pages.len() && #[trigger] page_entry(pages[i]) == Some(
            record,
        );
        lemma_filter_map_keeps(pages, f, i);
    }
}

/// How often `filter_map` yields a value is how many elements of the
/// sequence are mapped to it.
proof fn lemma_filter_map_count<A, B>(s: Seq<A>, f: spec_fn(A) -> Option<B>, value: B)
    ensures
        s.filter_map(f).to_multiset().count(value) == s.to_multiset().filter(
            |a: A| f(a) == Some(value),
        ).len(),
    decreases s.len(),
{
    broadcast use vstd::multiset::group_multiset_axioms;

    let wanted = |a: A| f(a) == Some(value);
    if s.len() == 0 {
        s.to_multiset_ensures();
        s.filter_map(f).to_multiset_ensures();
        assert(s.to_multiset().filter(wanted) =~= vstd::multiset::Multiset::empty());
    } else {
        let front = s.drop_last();
        let last = s.last();
        lemma_filter_map_count(front, f, value);
        assert(s =~= front.push(last));
        vstd::seq_lib::to_multiset_build(front, last);
        if wanted(last) {
            assert(s.to_multiset().filter(wanted) =~= front.to_multiset().filter(wanted).insert(
                last,
            ));
        } else {
            assert(s.to_multiset().filter(wanted) =~= front.to_multiset().filter(wanted));
        }
        match f(last) {
            Some(kept) => {
                assert(s.filter_map(f) =~= front.filter_map(f).push(kept));
                vstd::seq_lib::to_multiset_build(front.filter_map(f), kept);
            },
            None => {},
        }
    }
}

/// The records that a walk yields do not depend on the order of the walk,
/// but for their own order: each record is listed as often either way.
pub proof fn lemma_discovered_permutation(pages: Seq<WalkEntryView>, other: Seq<WalkEntryView>)
    requires
        pages.to_multiset() == other.to_multiset(),
    ensures
        discovered(pages).to_multiset() == discovered(other).to_multiset(),
        discovered(pages).len() == discovered(other).len(),
{
    let f = |entry: WalkEntryView| page_entry(entry);
    assert forall|record: RouteNamesView|
        discovered(pages).to_multiset().count(record) == discovered(other).to_multiset().count(
            record,
        ) by {
        lemma_filter_map_count(pages, f, record);
        lemma_filter_map_count(other, f, record);
    }
    discovered(pages).to_multiset_ensures();
    discovered(other).to_multiset_ensures();
}

/// Rebuilding twice over an unchanged tree gives the same cache up to the
/// order of its routes. Both times the walks meet the same entries, in
/// whatever order, so the stored count is the same, and the routes hold the
/// same records: as a set, and each as often.
pub proof fn lemma_rebuild_idempotent(
    pages: Seq<WalkEntryView>,
    walk: Seq<PathView>,
    pages_again: Seq<WalkEntryView>,
    walk_again: Seq<PathView>,
)
    requires
        pages.to_multiset() == pages_again.to_multiset(),
        walk.to_multiset() == walk_again.to_multiset(),
    ensures
        rebuilt(pages, walk).len == rebuilt(pages_again, walk_again).len,
        rebuilt(pages, walk).routes.to_set() == rebuilt(pages_again, walk_again).routes.to_set(),
        rebuilt(pages, walk).routes.to_multiset() == rebuilt(
            pages_again,
            walk_again,
        ).routes.to_multiset(),
{
    lemma_page_count_order_independent(walk, walk_again);
    lemma_discovered_permutation(pages, pages_again);
    let first = discovered(pages);
    let second = discovered(pages_again);
    first.to_multiset_ensures();
    second.to_multiset_ensures();
    assert forall|record: RouteNamesView| first.contains(record) <==> second.contains(record) by {
        assert(second.contains(record) <==> second.to_multiset().count(record) > 0);
    }
}

} // verus!
