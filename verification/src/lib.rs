//! Broker core for a session-multiplexed request/response bridge between an
//! assistant-facing tool dispatcher and IDE plugins that long-poll over HTTP.
//!
//! This crate holds the broker's state and rules: the session registry, the
//! per-session request queues, the correlation table that routes plugin
//! responses back to waiting callers, and the dispatcher's decisions. The
//! HTTP server, the stdio protocol loop and the individual tool wrappers live
//! outside, in a thin shell that calls into these verified operations.

use vstd::prelude::*;

pub mod dispatch;
pub mod laws;
pub mod error;
pub mod outside;
pub mod state;

verus! {

/// Heartbeats at most this many seconds old count as connected.
pub const CONNECTED_THRESHOLD_SECS: u64 = 30;

/// Sessions whose heartbeat is older than this many seconds are reaped.
pub const STALE_REAP_SECS: u64 = 60;

/// Age of a heartbeat, given the current monotonic clock reading.
/// A clock reading older than the stored heartbeat counts as age zero.
pub open spec fn heartbeat_age(now_secs: u64, heartbeat_secs: u64) -> int {
    if now_secs >= heartbeat_secs {
        now_secs - heartbeat_secs
    } else {
        0
    }
}

} // verus!
