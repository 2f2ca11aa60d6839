use route_index::{route_cache_len, show_paths, RequestEvent, RequestState};

#[test]
fn stale_cache_is_rebuilt() {
    let next = show_paths(RequestState::CheckStale, RequestEvent::Counted { live: 2, stored: 0 });
    assert_eq!(next, RequestState::Rebuild);
    let next = show_paths(RequestState::CheckStale, RequestEvent::Counted { live: 1, stored: 4 });
    assert_eq!(next, RequestState::Rebuild);
}

#[test]
fn fresh_cache_is_read_without_a_rebuild() {
    let next = show_paths(RequestState::CheckStale, RequestEvent::Counted { live: 2, stored: 2 });
    assert_eq!(next, RequestState::ReadCache);
    let next = show_paths(RequestState::CheckStale, RequestEvent::Counted { live: 0, stored: 0 });
    assert_eq!(next, RequestState::ReadCache);
}

#[test]
fn rebuild_happens_exactly_on_a_count_mismatch() {
    for live in 0..6usize {
        for stored in 0..6usize {
            let next =
                show_paths(RequestState::CheckStale, RequestEvent::Counted { live, stored });
            assert_eq!(next == RequestState::Rebuild, live != stored);
            assert_eq!(next == RequestState::ReadCache, live == stored);
        }
    }
}

#[test]
fn undecodable_cache_is_rebuilt_when_there_is_a_page() {
    let stored = route_cache_len(None);
    let next = show_paths(RequestState::CheckStale, RequestEvent::Counted { live: 1, stored });
    assert_eq!(next, RequestState::Rebuild);
}

#[test]
fn undecodable_cache_of_an_empty_tree_is_not_rebuilt() {
    let stored = route_cache_len(None);
    let next = show_paths(RequestState::CheckStale, RequestEvent::Counted { live: 0, stored });
    assert_eq!(next, RequestState::ReadCache);
    assert_eq!(show_paths(next, RequestEvent::Failed), RequestState::Failed);
}

#[test]
fn cache_is_read_back_after_a_rebuild() {
    assert_eq!(show_paths(RequestState::Rebuild, RequestEvent::Rebuilt), RequestState::ReadCache);
}

#[test]
fn response_follows_the_read() {
    assert_eq!(show_paths(RequestState::ReadCache, RequestEvent::CacheRead), RequestState::Respond);
}

#[test]
fn failure_of_a_step_fails_the_request() {
    assert_eq!(show_paths(RequestState::CheckStale, RequestEvent::Failed), RequestState::Failed);
    assert_eq!(show_paths(RequestState::Rebuild, RequestEvent::Failed), RequestState::Failed);
    assert_eq!(show_paths(RequestState::ReadCache, RequestEvent::Failed), RequestState::Failed);
}

#[test]
fn report_that_does_not_answer_the_step_fails_the_request() {
    assert_eq!(show_paths(RequestState::CheckStale, RequestEvent::Rebuilt), RequestState::Failed);
    assert_eq!(show_paths(RequestState::CheckStale, RequestEvent::CacheRead), RequestState::Failed);
    assert_eq!(show_paths(RequestState::Rebuild, RequestEvent::CacheRead), RequestState::Failed);
    assert_eq!(
        show_paths(RequestState::Rebuild, RequestEvent::Counted { live: 1, stored: 2 }),
        RequestState::Failed
    );
    assert_eq!(show_paths(RequestState::ReadCache, RequestEvent::Rebuilt), RequestState::Failed);
}

#[test]
fn finished_request_stays_finished() {
    let events = [
        RequestEvent::Counted { live: 1, stored: 2 },
        RequestEvent::Rebuilt,
        RequestEvent::CacheRead,
        RequestEvent::Failed,
    ];
    for event in events {
        assert_eq!(show_paths(RequestState::Respond, event), RequestState::Respond);
        assert_eq!(show_paths(RequestState::Failed, event), RequestState::Failed);
    }
}

#[test]
fn request_is_over_after_three_steps() {
    let events = [
        RequestEvent::Counted { live: 1, stored: 2 },
        RequestEvent::Counted { live: 3, stored: 3 },
        RequestEvent::Rebuilt,
        RequestEvent::CacheRead,
        RequestEvent::Failed,
    ];
    for first in events {
        for second in events {
            for third in events {
                let mut state = RequestState::CheckStale;
                state = show_paths(state, first);
                state = show_paths(state, second);
                state = show_paths(state, third);
                assert!(state == RequestState::Respond || state == RequestState::Failed);
            }
        }
    }
}
