//! Tests for the assistant-facing dispatcher decisions, the proxy-mode
//! helpers and the error texts.

use studiolink::dispatch::{
    begin_send, finish_send, make_proxy_request, plugin_response_to_result,
    proxy_request_timeout_secs, proxy_status_error, switch_not_found_hint_message,
    switch_not_found_message, switch_success_message, ReplyOutcome, DEFAULT_TIMEOUT_SECS,
    EXTENDED_TIMEOUT_SECS, LONG_POLL_WINDOW_SECS, PROXY_CALL_TIMEOUT_SECS,
    PROXY_TIMEOUT_SLACK_SECS,
};
use studiolink::error::StudioLinkError;
use studiolink::state::{AppState, PluginResponse, SessionRegistration};

fn reg(session_id: &str, place_id: u64, place_name: &str, game_id: u64) -> SessionRegistration {
    SessionRegistration {
        session_id: session_id.to_string(),
        place_id,
        place_name: place_name.to_string(),
        game_id,
    }
}

fn json(text: &str) -> serde_json::Value {
    serde_json::from_str(text).unwrap()
}

#[test]
fn not_connected_fails_fast() {
    let (mut s, _rx) = AppState::new();
    let r = begin_send(&mut s, "datastore_list", serde_json::Value::Null, 0);
    match r {
        Err(e) => {
            assert!(matches!(e, StudioLinkError::PluginNotConnected));
            assert_eq!(e.to_error_line(), "Error: Studio plugin is not connected");
        }
        Ok(_) => panic!("no plugin is registered"),
    }
}

#[test]
fn stale_active_session_counts_as_not_connected() {
    let (mut s, _rx) = AppState::new();
    s.register_session(reg("A", 1, "P", 1), 0, 1000);
    let r = begin_send(&mut s, "run_code", serde_json::Value::Null, 35);
    assert!(matches!(r, Err(StudioLinkError::PluginNotConnected)));
}

#[test]
fn begin_send_enqueues_on_the_active_session() {
    let (mut s, _rx) = AppState::new();
    s.register_session(reg("A", 1, "P", 1), 0, 1000);
    let (id, _reply_rx) = begin_send(&mut s, "run_code", json("{\"command\":\"print(1)\"}"), 1)
        .expect("plugin connected");
    assert_eq!(id.len(), 36);
    let req = s.get_pending_request_for_session("A").unwrap();
    assert_eq!(req.id, id);
    assert_eq!(req.tool, "run_code");
}

#[test]
fn timeout_maps_to_request_timeout() {
    let r = finish_send(ReplyOutcome::TimedOut, "run_code");
    match r {
        Err(e) => {
            assert!(matches!(&e, StudioLinkError::RequestTimeout(t) if t == "run_code"));
            assert_eq!(e.to_error_line(), "Error: Request run_code timed out");
        }
        Ok(_) => panic!("a timeout is an error"),
    }
}

#[test]
fn closed_channel_maps_to_plugin_error() {
    let r = finish_send(ReplyOutcome::ChannelClosed, "run_code");
    match r {
        Err(e) => {
            assert_eq!(e.message(), "Plugin error: Response channel closed");
        }
        Ok(_) => panic!("a closed channel is an error"),
    }
}

#[test]
fn successful_response_passes_the_payload_through() {
    let response = PluginResponse {
        id: "x".to_string(),
        success: true,
        result: json("{\"output\":\"1\"}"),
        error: None,
    };
    let r = finish_send(ReplyOutcome::Received(response), "run_code");
    assert_eq!(r.unwrap().to_string(), "{\"output\":\"1\"}");
}

#[test]
fn failed_response_carries_the_plugin_message() {
    let response = PluginResponse {
        id: "x".to_string(),
        success: false,
        result: serde_json::Value::Null,
        error: Some("boom".to_string()),
    };
    match plugin_response_to_result(response) {
        Err(e) => assert_eq!(e.message(), "Plugin error: boom"),
        Ok(_) => panic!("success flag is false"),
    }
}

#[test]
fn failed_response_without_message_uses_the_fallback() {
    let response = PluginResponse {
        id: "x".to_string(),
        success: false,
        result: serde_json::Value::Null,
        error: None,
    };
    match plugin_response_to_result(response) {
        Err(e) => assert_eq!(e.message(), "Plugin error: Unknown plugin error"),
        Ok(_) => panic!("success flag is false"),
    }
}

#[test]
fn proxy_timeout_adds_the_fixed_slack() {
    assert_eq!(proxy_request_timeout_secs(30), 35);
    assert_eq!(proxy_request_timeout_secs(120), 125);
    assert_eq!(proxy_request_timeout_secs(DEFAULT_TIMEOUT_SECS), DEFAULT_TIMEOUT_SECS + 5);
}

#[test]
fn timeout_constants_match_the_protocol() {
    assert_eq!(DEFAULT_TIMEOUT_SECS, 30);
    assert_eq!(EXTENDED_TIMEOUT_SECS, 120);
    assert_eq!(PROXY_TIMEOUT_SLACK_SECS, 5);
    assert_eq!(PROXY_CALL_TIMEOUT_SECS, 60);
    assert_eq!(LONG_POLL_WINDOW_SECS, 30);
}

#[test]
fn proxy_status_mapping() {
    assert!(matches!(
        proxy_status_error(503, "t"),
        Some(StudioLinkError::PluginNotConnected)
    ));
    match proxy_status_error(504, "t") {
        Some(StudioLinkError::RequestTimeout(tool)) => assert_eq!(tool, "t"),
        other => panic!("504 must map to a timeout, got {:?}", other.is_some()),
    }
    assert!(proxy_status_error(200, "t").is_none());
    assert!(proxy_status_error(500, "t").is_none());
}

#[test]
fn proxy_request_carries_tool_and_args() {
    let args = json("{\"a\":1}");
    let request = make_proxy_request("t", args.clone());
    assert_eq!(request.tool, "t");
    assert_eq!(request.args, args);
    assert_eq!(request.id.len(), 36);
    // a second request draws a different correlation id
    let request2 = make_proxy_request("t", serde_json::Value::Null);
    assert_ne!(request.id, request2.id);
}

#[test]
fn proxy_forwarding_primary_side() {
    // the primary's half of a forwarded call: enqueue on the registered
    // session, take the plugin's response, hand the payload back
    let (mut s, _rx) = AppState::new();
    s.register_session(reg("S", 1, "P", 1), 0, 1000);
    let forwarded = make_proxy_request("t", json("{\"a\":1}"));
    let (id, mut reply_rx) = s.queue_request(&forwarded.tool, forwarded.args).unwrap();
    let polled = s.get_pending_request_for_session("S").unwrap();
    assert_eq!(polled.tool, "t");
    assert!(s.deliver_response(PluginResponse {
        id: id.clone(),
        success: true,
        result: json("{\"r\":2}"),
        error: None,
    }));
    let response = reply_rx.try_recv().unwrap();
    let r = plugin_response_to_result(response);
    assert_eq!(r.unwrap().to_string(), "{\"r\":2}");
}

#[test]
fn switch_reply_messages() {
    assert_eq!(switch_success_message("B"), "Switched to session: B");
    assert_eq!(switch_not_found_message("B"), "Session 'B' not found.");
    assert_eq!(
        switch_not_found_hint_message("B"),
        "Session 'B' not found. Use list_sessions to see available sessions."
    );
}

#[test]
fn error_messages_are_exact() {
    assert_eq!(
        StudioLinkError::PluginNotConnected.message(),
        "Studio plugin is not connected"
    );
    assert_eq!(
        StudioLinkError::RequestTimeout("run_code".to_string()).message(),
        "Request run_code timed out"
    );
    assert_eq!(
        StudioLinkError::PluginError("x".to_string()).message(),
        "Plugin error: x"
    );
    assert_eq!(
        StudioLinkError::InvalidArguments("x".to_string()).message(),
        "Invalid arguments: x"
    );
    assert_eq!(
        StudioLinkError::ServerError("x".to_string()).message(),
        "Server error: x"
    );
    assert_eq!(StudioLinkError::McpError("x".to_string()).message(), "MCP error: x");
    assert_eq!(
        StudioLinkError::SerializationError("x".to_string()).message(),
        "Serialization error: x"
    );
    assert_eq!(StudioLinkError::IoError("x".to_string()).message(), "IO error: x");
}
