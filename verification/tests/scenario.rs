use route_index::{
    add_cache, route_cache_len, route_len, show_paths, EntryPath, RequestEvent, RequestState,
    RouteCache, RouteNames, WalkEntry,
};

fn tree_path(segments: &[&str]) -> EntryPath {
    EntryPath { segments: segments.iter().map(|s| Some(s.to_string())).collect() }
}

fn tree_walk() -> Vec<EntryPath> {
    vec![
        tree_path(&["root"]),
        tree_path(&["root", "x"]),
        tree_path(&["root", "x", "index.html"]),
        tree_path(&["root", "y"]),
        tree_path(&["root", "y", "z"]),
        tree_path(&["root", "y", "z", "index.html"]),
    ]
}

fn tree_content(path: &EntryPath) -> Option<Vec<String>> {
    if *path == tree_path(&["root", "x", "index.html"]) {
        Some(vec!["<html><head>".to_string(), "<title>X</title>".to_string()])
    } else if *path == tree_path(&["root", "y", "z", "index.html"]) {
        Some(vec!["<title>Z</title>".to_string(), "</head></html>".to_string()])
    } else {
        None
    }
}

fn tree_pages() -> Vec<WalkEntry> {
    tree_walk()
        .into_iter()
        .map(|path| {
            let lines = if path.is_page() { tree_content(&path) } else { None };
            WalkEntry { path, lines }
        })
        .collect()
}

/// Handles one request against a cache file held in memory, the way the
/// surrounding program does against the disk. Returns the response and
/// whether the cache was rebuilt.
fn handle_request(stored: &mut Option<RouteCache>) -> (Option<RouteCache>, bool) {
    let mut state = RequestState::CheckStale;
    let mut rebuilt = false;
    let mut body = None;
    loop {
        let event = match state {
            RequestState::CheckStale => RequestEvent::Counted {
                live: route_len(&tree_walk()),
                stored: route_cache_len(stored.clone()),
            },
            RequestState::Rebuild => {
                *stored = Some(add_cache(&tree_pages(), &tree_walk()));
                rebuilt = true;
                RequestEvent::Rebuilt
            }
            RequestState::ReadCache => match stored.clone() {
                Some(cache) => {
                    body = Some(cache);
                    RequestEvent::CacheRead
                }
                None => RequestEvent::Failed,
            },
            RequestState::Respond => return (body, rebuilt),
            RequestState::Failed => return (None, rebuilt),
        };
        state = show_paths(state, event);
    }
}

#[test]
fn first_request_builds_the_cache_and_the_second_reuses_it() {
    let expected = RouteCache {
        len: 2,
        routes: vec![
            RouteNames { name: "X".to_string(), route: "x/".to_string() },
            RouteNames { name: "Z".to_string(), route: "y/z/".to_string() },
        ],
    };
    let mut stored = None;

    let (body, rebuilt) = handle_request(&mut stored);
    assert!(rebuilt);
    assert_eq!(stored, Some(expected.clone()));
    assert_eq!(body, Some(expected.clone()));

    let (body, rebuilt) = handle_request(&mut stored);
    assert!(!rebuilt);
    assert_eq!(stored, Some(expected.clone()));
    assert_eq!(body, Some(expected));
}

#[test]
fn fresh_request_passes_the_stored_cache_through() {
    let kept = RouteCache {
        len: 2,
        routes: vec![RouteNames { name: "Old".to_string(), route: "old/".to_string() }],
    };
    let mut stored = Some(kept.clone());
    let (body, rebuilt) = handle_request(&mut stored);
    assert!(!rebuilt);
    assert_eq!(body, Some(kept));
}

#[test]
fn stale_request_replaces_the_stored_cache() {
    let mut stored = Some(RouteCache {
        len: 1,
        routes: vec![RouteNames { name: "Old".to_string(), route: "old/".to_string() }],
    });
    let (body, rebuilt) = handle_request(&mut stored);
    assert!(rebuilt);
    let body = body.expect("a response");
    assert_eq!(body.len, 2);
    assert_eq!(body.routes.len(), 2);
    assert!(body.routes.iter().all(|route| route.name != "Old"));
}
