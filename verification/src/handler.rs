//! The handling of one index request, as a state machine.
//!
//! The surrounding program performs the step that the current state names,
//! reports how it went, and is told the next state. A request starts in
//! [`RequestState::CheckStale`] and ends in [`RequestState::Respond`] or in
//! [`RequestState::Failed`].

use crate::cache::stored_count;
use crate::discovery::{
    lemma_page_count_order_independent, page_count, rebuilt, PathView, WalkEntryView,
};
use vstd::prelude::*;

verus! {

/// Where the handling of a request stands. Each state names the step to
/// perform next.
#[derive(Debug, Clone, Copy, PartialEq, Eq, Structural)]
pub enum RequestState {
    /// Count the pages on disk and read the count stored with the cache.
    CheckStale,
    /// Rebuild the cache and write it, replacing what was there.
    Rebuild,
    /// Read the whole cache back from where it is kept.
    ReadCache,
    /// Send what was read as the response. The request is over.
    Respond,
    /// Report the request as failed. The request is over.
    Failed,
}

/// What the surrounding program reports after a step.
#[derive(Debug, Clone, Copy, PartialEq, Eq, Structural)]
pub enum RequestEvent {
    /// The pages were counted: `live` on disk, `stored` with the cache.
    Counted { live: usize, stored: usize },
    /// The cache was rebuilt and written.
    Rebuilt,
    /// The cache was read and decoded.
    CacheRead,
    /// The step could not be done: the cache could not be written, read or
    /// decoded.
    Failed,
}

/// The state that follows `state` once `event` is reported.
///
/// The cache is rebuilt exactly when the two counts differ, and it is always
/// read back before the response. A failure, or a report that does not
/// answer the step that the state names, fails the request.
pub open spec fn next_state(state: RequestState, event: RequestEvent) -> RequestState {
    match (state, event) {
        (RequestState::CheckStale, RequestEvent::Counted { live, stored }) => if live != stored {
            RequestState::Rebuild
        } else {
            RequestState::ReadCache
        },
        (RequestState::Rebuild, RequestEvent::Rebuilt) => RequestState::ReadCache,
        (RequestState::ReadCache, RequestEvent::CacheRead) => RequestState::Respond,
        (RequestState::Respond, _) => RequestState::Respond,
        _ => RequestState::Failed,
    }
}

/// A request is over once there is a response or a failure to send.
pub open spec fn is_over(state: RequestState) -> bool {
    state == RequestState::Respond || state == RequestState::Failed
}

/// Advances the handling of an index request by one step: given the state
/// whose step was performed and the report of how it went, returns the state
/// whose step comes next.
pub fn show_paths(state: RequestState, event: RequestEvent) -> (next: RequestState)
    ensures
        next == next_state(state, event),
        state == RequestState::CheckStale ==> (event matches RequestEvent::Counted { live, stored }
            ==> (next == RequestState::Rebuild <==> live != stored)),
{
    match (state, event) {
        (RequestState::CheckStale, RequestEvent::Counted { live, stored }) => {
            if live != stored {
                RequestState::Rebuild
            } else {
                RequestState::ReadCache
            }
        },
        (RequestState::Rebuild, RequestEvent::Rebuilt) => RequestState::ReadCache,
        (RequestState::ReadCache, RequestEvent::CacheRead) => RequestState::Respond,
        (RequestState::Respond, _) => RequestState::Respond,
        _ => RequestState::Failed,
    }
}

/// The cache is rebuilt if and only if the count stored with it differs from
/// the number of pages on disk.
pub proof fn lemma_rebuild_iff_stale(live: usize, stored: usize)
    ensures
        next_state(RequestState::CheckStale, RequestEvent::Counted { live, stored })
            == RequestState::Rebuild <==> live != stored,
        next_state(RequestState::CheckStale, RequestEvent::Counted { live, stored })
            == RequestState::ReadCache <==> live == stored,
{
}

/// A cache that cannot be decoded is replaced as soon as the tree holds a
/// page: its stored count is 0, which differs from the live count.
pub proof fn lemma_undecodable_cache_is_rebuilt(live: usize)
    requires
        live != 0,
    ensures
        stored_count(None) == 0,
        next_state(
            RequestState::CheckStale,
            RequestEvent::Counted { live, stored: stored_count(None) as usize },
        ) == RequestState::Rebuild,
{
}

/// A cache that was just rebuilt is fresh: as long as the tree does not
/// change, the next request finds the stored count equal to the live count
/// and reads the cache without rebuilding it.
pub proof fn lemma_rebuilt_cache_is_fresh(
    pages: Seq<WalkEntryView>,
    walk: Seq<PathView>,
    walk_again: Seq<PathView>,
    live: usize,
    stored: usize,
)
    requires
        walk.to_multiset() == walk_again.to_multiset(),
        stored == stored_count(Some(rebuilt(pages, walk))),
        live == page_count(walk_again),
    ensures
        next_state(RequestState::CheckStale, RequestEvent::Counted { live, stored })
            == RequestState::ReadCache,
{
    lemma_page_count_order_independent(walk, walk_again);
}

/// No response is sent but after the cache has been read back: the response
/// is what is stored, whether or not this request rebuilt it.
pub proof fn lemma_response_follows_read(state: RequestState, event: RequestEvent)
    requires
        state != RequestState::Respond,
        next_state(state, event) == RequestState::Respond,
    ensures
        state == RequestState::ReadCache,
        event == RequestEvent::CacheRead,
{
}

/// A request is over after at most three steps, whatever is reported.
pub proof fn lemma_request_ends(first: RequestEvent, second: RequestEvent, third: RequestEvent)
    ensures
        is_over(
            next_state(
                next_state(next_state(RequestState::CheckStale, first), second),
                third,
            ),
        ),
{
}

} // verus!
