//! The assistant-facing dispatcher's decisions, split around the one point
//! where a caller waits: `begin_send` runs under the broker lock and either
//! fails fast or enqueues the request and hands back the reply channel;
//! the shell then waits on that channel with a timeout, and `finish_send`
//! turns whatever the wait produced into the caller's result.
//!
//! The proxy-mode helpers pin down the decisions of the forwarding path:
//! the outer HTTP timeout, the request body, and the mapping from HTTP
//! status codes to errors.

use vstd::prelude::*;

use crate::error::StudioLinkError;
use crate::outside::{fresh_request_id, ResponseReceiver};
use crate::state::{queue_effect, AppState, PluginRequest, PluginRequestV, PluginResponse};

verus! {

/// Default timeout for plugin requests (seconds)
pub const DEFAULT_TIMEOUT_SECS: u64 = 30;

/// Extended timeout for long-running operations (seconds)
pub const EXTENDED_TIMEOUT_SECS: u64 = 120;

/// Extra buffer added to the outer HTTP timeout in proxy mode, so the
/// primary's inner timeout always fires first.
pub const PROXY_TIMEOUT_SLACK_SECS: u64 = 5;

/// How long the primary waits for a plugin response on a forwarded call
/// before answering 504 (seconds).
pub const PROXY_CALL_TIMEOUT_SECS: u64 = 60;

/// How long a plugin's long poll may idle before it is answered empty
/// (seconds).
pub const LONG_POLL_WINDOW_SECS: u64 = 30;

/// What the wait on a reply channel produced.
pub enum ReplyOutcome {
    /// The plugin responded in time.
    Received(PluginResponse),
    /// The channel closed without a value.
    ChannelClosed,
    /// The wait timed out.
    TimedOut,
}

/// Check the active session and enqueue the request on it, under the broker
/// lock. Fails with `PluginNotConnected` exactly when no connected active
/// session exists, leaving the broker untouched; otherwise returns the fresh
/// request id and the reply channel to wait on.
pub fn begin_send(
    state: &mut AppState,
    tool: &str,
    args: serde_json::Value,
    now_secs: u64,
) -> (r: Result<(String, ResponseReceiver), StudioLinkError>)
    requires
        old(state).wf(),
    ensures
        final(state).wf(),
        !old(state).plugin_connected(now_secs) ==> (r matches Err(e) && e matches
            StudioLinkError::PluginNotConnected && *final(state) == *old(state)),
        old(state).plugin_connected(now_secs) ==> {
            &&& old(state).active_view() is Some
            &&& (r matches Ok(p) && p.0@.len() == 36 && queue_effect(
                *old(state),
                *final(state),
                old(state).active_view()->0,
                (PluginRequestV { id: p.0@, tool: tool@, args }),
            ))
        },
{
    if !state.is_plugin_connected(now_secs) {
        return Err(StudioLinkError::PluginNotConnected);
    }
    match state.queue_request(tool, args) {
        Some(p) => Ok(p),
        None => Err(
            StudioLinkError::PluginError(
                String::from_str(
                    "No active session. Use list_sessions and switch_session to connect.",
                ),
            ),
        ),
    }
}

/// Map a plugin response to the caller's result: the payload on success,
/// `PluginError` with the plugin's message (or a fixed fallback) otherwise.
pub fn plugin_response_to_result(response: PluginResponse) -> (r: Result<
    serde_json::Value,
    StudioLinkError,
>)
    ensures
        response.success ==> (r matches Ok(v) && v == response.result),
        !response.success ==> (r matches Err(e) && e matches StudioLinkError::PluginError(m) && (
        match response.error {
            Some(msg) => m@ == msg@,
            None => m@ == "Unknown plugin error"@,
        })),
{
    if response.success {
        Ok(response.result)
    } else {
        Err(
            StudioLinkError::PluginError(
                match response.error {
                    Some(e) => e,
                    None => String::from_str("Unknown plugin error"),
                },
            ),
        )
    }
}

/// Turn the outcome of the wait on the reply channel into the caller's
/// result. Every outcome is pinned down: a response maps through
/// `plugin_response_to_result`, a closed channel becomes a `PluginError`,
/// and a timeout becomes `RequestTimeout` naming the tool.
pub fn finish_send(outcome: ReplyOutcome, tool: &str) -> (r: Result<
    serde_json::Value,
    StudioLinkError,
>)
    ensures
        outcome matches ReplyOutcome::Received(resp) ==> {
            &&& resp.success ==> (r matches Ok(v) && v == resp.result)
            &&& !resp.success ==> (r matches Err(e) && e matches StudioLinkError::PluginError(m)
                && (match resp.error {
                Some(msg) => m@ == msg@,
                None => m@ == "Unknown plugin error"@,
            }))
        },
        outcome matches ReplyOutcome::ChannelClosed ==> (r matches Err(e) && e matches
            StudioLinkError::PluginError(m) && m@ == "Response channel closed"@),
        outcome matches ReplyOutcome::TimedOut ==> (r matches Err(e) && e matches
            StudioLinkError::RequestTimeout(t) && t@ == tool@),
{
    match outcome {
        ReplyOutcome::Received(response) => plugin_response_to_result(response),
        ReplyOutcome::ChannelClosed => Err(
            StudioLinkError::PluginError(String::from_str("Response channel closed")),
        ),
        ReplyOutcome::TimedOut => Err(StudioLinkError::RequestTimeout(tool.to_owned())),
    }
}

/// The outer HTTP timeout for a forwarded tool call: the inner timeout plus
/// the fixed slack, so the primary's own timeout fires first.
pub fn proxy_request_timeout_secs(timeout_secs: u64) -> (r: u64)
    requires
        timeout_secs + PROXY_TIMEOUT_SLACK_SECS <= u64::MAX,
    ensures
        r == timeout_secs + PROXY_TIMEOUT_SLACK_SECS,
{
    timeout_secs + PROXY_TIMEOUT_SLACK_SECS
}

/// The request body a proxy forwards to the primary: a fresh id, the tool
/// name, and the arguments unchanged.
pub fn make_proxy_request(tool: &str, args: serde_json::Value) -> (r: PluginRequest)
    ensures
        r.id@.len() == 36,
        r.tool@ == tool@,
        r.args == args,
{
    PluginRequest { id: fresh_request_id(), tool: tool.to_owned(), args }
}

/// Map the HTTP status of a forwarded call: 503 means no session at the
/// primary, 504 means the primary timed out waiting for the plugin; any
/// other status carries a body to be parsed instead.
pub fn proxy_status_error(status: u16, tool: &str) -> (r: Option<StudioLinkError>)
    ensures
        status == 503 ==> (r matches Some(e) && e matches StudioLinkError::PluginNotConnected),
        status == 504 ==> (r matches Some(e) && e matches StudioLinkError::RequestTimeout(t) && t@
            == tool@),
        status != 503 && status != 504 ==> r is None,
{
    if status == 503 {
        Some(StudioLinkError::PluginNotConnected)
    } else if status == 504 {
        Some(StudioLinkError::RequestTimeout(tool.to_owned()))
    } else {
        None
    }
}

/// The reply body for a successful session switch.
pub fn switch_success_message(session_id: &str) -> (r: String)
    ensures
        r@ == "Switched to session: "@ + session_id@,
{
    String::from_str("Switched to session: ").concat(session_id)
}

/// The reply body when the requested session does not exist.
pub fn switch_not_found_message(session_id: &str) -> (r: String)
    ensures
        r@ == "Session '"@ + session_id@ + "' not found."@,
{
    String::from_str("Session '").concat(session_id).concat("' not found.")
}

/// The reply body when the requested session does not exist, with the hint
/// shown to the assistant.
pub fn switch_not_found_hint_message(session_id: &str) -> (r: String)
    ensures
        r@ == "Session '"@ + session_id@
            + "' not found. Use list_sessions to see available sessions."@,
{
    String::from_str("Session '").concat(session_id).concat(
        "' not found. Use list_sessions to see available sessions.",
    )
}

} // verus!
