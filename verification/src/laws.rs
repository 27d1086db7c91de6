//! The broker's stated invariants, as proof functions over the state model.
//!
//! Each law is proved from the contracts and well-formedness predicate in
//! [`crate::state`]; the operations there establish and preserve `wf`, so
//! these hold in every state a caller can reach.

use vstd::prelude::*;

use crate::state::{AppState, SessionState};

verus! {

/// Correlation uniqueness: no two live correlation entries share an id.
/// (Its companion — that delivering a response consumes exactly the one
/// entry under its id — is the contract of `AppState::deliver_response`.)
pub proof fn lemma_correlation_ids_unique(s: &AppState, i: int, j: int)
    requires
        s.wf(),
        0 <= i < s.response_channels@.len(),
        0 <= j < s.response_channels@.len(),
        s.response_channels@[i].id@ == s.response_channels@[j].id@,
    ensures
        i == j,
{
    if i < j {
        assert(s.response_channels@[i].id@ != s.response_channels@[j].id@);
    } else if j < i {
        assert(s.response_channels@[j].id@ != s.response_channels@[i].id@);
    }
}

/// Per-session FIFO: the requests a session has handed to its plugin, in
/// hand-out order, are a prefix of everything submitted to that session in
/// submission order. `queue_request` extends the submission history and
/// `get_pending_request_for_session` moves its head to the hand-out
/// history, so this holds in every reachable state.
pub proof fn lemma_polled_prefix_of_submitted(s: &SessionState)
    ensures
        s.polled@.is_prefix_of(s.submitted_views()),
{
    assert(s.submitted_views().subrange(0, s.polled@.len() as int) =~= s.polled@);
}

/// Connected implies registered: whenever the plugin counts as connected,
/// the active session id is set and names a present session.
pub proof fn lemma_connected_implies_registered(s: &AppState, now_secs: u64)
    requires
        s.wf(),
        s.plugin_connected(now_secs),
    ensures
        s.active_view() is Some,
        s.has_session(s.active_view()->0),
{
    let a = s.active_view()->0;
    let w = choose|i: int|
        0 <= i < s.sessions@.len() && s.sessions@[i].id_view() == a && s.sessions@[i].connected(
            now_secs,
        );
    assert(s.sessions@[w].id_view() == a);
}

/// Eviction idempotence: a well-formed registry holds at most one session
/// per (place id, place name) pair, and `register_session` guarantees the
/// registered pair is present — so registering the same pair twice leaves
/// exactly one session for it.
pub proof fn lemma_place_pair_at_most_one(s: &AppState, i: int, j: int)
    requires
        s.wf(),
        0 <= i < s.sessions@.len(),
        0 <= j < s.sessions@.len(),
        s.sessions@[i].info.place_id == s.sessions@[j].info.place_id,
        s.sessions@[i].info.place_name@ == s.sessions@[j].info.place_name@,
    ensures
        i == j,
{
    if i < j {
        assert(!(s.sessions@[i].info.place_id == s.sessions@[j].info.place_id
            && s.sessions@[i].info.place_name@ == s.sessions@[j].info.place_name@));
    } else if j < i {
        assert(!(s.sessions@[j].info.place_id == s.sessions@[i].info.place_id
            && s.sessions@[j].info.place_name@ == s.sessions@[i].info.place_name@));
    }
}

/// Session ids are unique: the registry never holds two sessions under one
/// id, so request routing by session id is unambiguous.
pub proof fn lemma_session_ids_unique(s: &AppState, i: int, j: int)
    requires
        s.wf(),
        0 <= i < s.sessions@.len(),
        0 <= j < s.sessions@.len(),
        s.sessions@[i].id_view() == s.sessions@[j].id_view(),
    ensures
        i == j,
{
    if i < j {
        assert(s.sessions@[i].id_view() != s.sessions@[j].id_view());
    } else if j < i {
        assert(s.sessions@[j].id_view() != s.sessions@[i].id_view());
    }
}

} // verus!
