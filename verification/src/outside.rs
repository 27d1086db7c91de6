//! Declarations and wrappers for the outside crates the broker leans on:
//! tokio's channels (long-poll wake signals and reply channels), uuid
//! (correlation ids) and serde_json (opaque tool payloads).
//!
//! Everything here is taken on trust; the contracts state only what the
//! outside sources plainly show, and nothing about outcomes that depend on
//! the run (whether a receiver is still alive, which id a generator draws).

use vstd::prelude::*;

use crate::state::PluginResponse;

verus! {

/// Opaque JSON payload: tool arguments and results pass through untouched.
#[verifier::external_type_specification]
#[verifier::external_body]
pub struct ExValue(serde_json::Value);

/// Edge-triggered wake signal, writer end (one per session, plus one global).
#[verifier::external_type_specification]
#[verifier::external_body]
#[verifier::reject_recursive_types(T)]
pub struct ExWatchSender<T>(tokio::sync::watch::Sender<T>);

/// Edge-triggered wake signal, waiter end.
#[verifier::external_type_specification]
#[verifier::external_body]
#[verifier::reject_recursive_types(T)]
pub struct ExWatchReceiver<T>(tokio::sync::watch::Receiver<T>);

/// Reply channel, broker end: delivers a plugin response to a waiting caller.
#[verifier::external_type_specification]
#[verifier::external_body]
#[verifier::reject_recursive_types(T)]
pub struct ExUnboundedSender<T>(tokio::sync::mpsc::UnboundedSender<T>);

/// Reply channel, caller end: awaited (with a timeout) outside the broker lock.
#[verifier::external_type_specification]
#[verifier::external_body]
#[verifier::reject_recursive_types(T)]
pub struct ExUnboundedReceiver<T>(tokio::sync::mpsc::UnboundedReceiver<T>);

/// Response channel for delivering plugin results back to tool handlers
pub type ResponseSender = tokio::sync::mpsc::UnboundedSender<PluginResponse>;

pub type ResponseReceiver = tokio::sync::mpsc::UnboundedReceiver<PluginResponse>;

/// Relies on tokio::sync::watch::channel: a fresh, connected signal pair.
/// Nothing about the pair is stated; the signal only wakes long-poll waiters.
#[verifier::external_body]
pub(crate) fn new_watch_channel() -> (tokio::sync::watch::Sender<bool>, tokio::sync::watch::Receiver<bool>) {
    tokio::sync::watch::channel(false)
}

/// Relies on tokio::sync::watch::Sender::send: marks the signal changed so a
/// waiter wakes. The result (whether receivers remain) is deliberately
/// dropped, as a wake with nobody waiting is a no-op.
#[verifier::external_body]
pub(crate) fn notify_watch(tx: &tokio::sync::watch::Sender<bool>) {
    let _ = tx.send(true);
}

/// Relies on tokio::sync::watch::Receiver::clone: a second waiter end of the
/// same signal, handed out under the lock and waited on after it is released.
#[verifier::external_body]
pub(crate) fn clone_watch_receiver(
    rx: &tokio::sync::watch::Receiver<bool>,
) -> tokio::sync::watch::Receiver<bool> {
    rx.clone()
}

/// Relies on tokio::sync::mpsc::unbounded_channel: a fresh, connected reply
/// channel pair for one correlation entry.
#[verifier::external_body]
pub(crate) fn new_response_channel() -> (ResponseSender, ResponseReceiver) {
    tokio::sync::mpsc::unbounded_channel()
}

/// Relies on tokio::sync::mpsc::UnboundedSender::send: hands the response to
/// the waiting caller. Returns whether a receiver was still attached, which
/// depends on the run (the caller may have timed out and dropped its end), so
/// nothing is promised of the result.
#[verifier::external_body]
pub(crate) fn send_response(tx: &ResponseSender, response: PluginResponse) -> bool {
    tx.send(response).is_ok()
}

/// Relies on tokio::sync::mpsc::UnboundedSender::is_closed: whether the
/// caller's end is gone. The answer depends on the run, so nothing is
/// promised of it.
#[verifier::external_body]
pub(crate) fn response_channel_closed(tx: &ResponseSender) -> bool {
    tx.is_closed()
}

/// Relies on uuid::Uuid::new_v4 and its Display form: a random version-4 id,
/// rendered hyphenated as 36 ASCII characters. The id is random, so only its
/// shape is stated.
#[verifier::external_body]
pub(crate) fn fresh_request_id() -> (r: String)
    ensures
        r@.len() == 36,
{
    uuid::Uuid::new_v4().to_string()
}

/// Relies on str's PartialEq: two string slices are equal exactly when their
/// character sequences are.
#[verifier::external_body]
pub(crate) fn str_eq(a: &str, b: &str) -> (r: bool)
    ensures
        r == (a@ == b@),
{
    a == b
}

} // verus!
