//! Scenario tests for the broker state machine: registration, eviction,
//! polling, correlation and reaping.

use studiolink::state::{AppState, PluginResponse, SessionRegistration};

fn reg(session_id: &str, place_id: u64, place_name: &str, game_id: u64) -> SessionRegistration {
    SessionRegistration {
        session_id: session_id.to_string(),
        place_id,
        place_name: place_name.to_string(),
        game_id,
    }
}

fn json(text: &str) -> serde_json::Value {
    serde_json::from_str(text).unwrap()
}

#[test]
fn register_sets_active_session() {
    let (mut s, _rx) = AppState::new();
    let id = s.register_session(reg("S1", 1, "P", 1), 0, 1000);
    assert_eq!(id, "S1");
    assert_eq!(s.get_active_session(), Some("S1"));
    assert!(s.is_plugin_connected(0));
    let infos = s.list_sessions();
    assert_eq!(infos.len(), 1);
    assert_eq!(infos[0].session_id, "S1");
    assert_eq!(infos[0].place_id, 1);
    assert_eq!(infos[0].place_name, "P");
    assert_eq!(infos[0].game_id, 1);
    assert_eq!(infos[0].connected_at, 1000);
}

#[test]
fn happy_path_roundtrip() {
    let (mut s, _rx) = AppState::new();
    s.register_session(reg("S1", 1, "P", 1), 0, 1000);
    let (id, mut reply_rx) = s
        .queue_request("run_code", json("{\"command\":\"print(1)\"}"))
        .expect("active session takes the request");
    assert_eq!(id.len(), 36);

    // the plugin polls and receives exactly the queued request
    let req = s.get_pending_request_for_session("S1").expect("request waiting");
    assert_eq!(req.id, id);
    assert_eq!(req.tool, "run_code");
    assert_eq!(req.args, json("{\"command\":\"print(1)\"}"));

    // the plugin responds; the waiting caller receives the payload
    let delivered = s.deliver_response(PluginResponse {
        id: id.clone(),
        success: true,
        result: json("{\"output\":\"1\"}"),
        error: None,
    });
    assert!(delivered);
    let response = reply_rx.try_recv().expect("response routed to the caller");
    assert_eq!(response.id, id);
    assert!(response.success);
    assert_eq!(response.result.to_string(), "{\"output\":\"1\"}");
}

#[test]
fn queue_wakes_the_long_poll_signal() {
    let (mut s, _rx) = AppState::new();
    s.register_session(reg("S1", 1, "P", 1), 0, 1000);
    let mut notify = s.get_session_notify_rx("S1").expect("session present");
    assert!(!notify.has_changed().unwrap());
    s.queue_request("run_code", serde_json::Value::Null).unwrap();
    assert!(notify.has_changed().unwrap());
    assert!(s.get_session_notify_rx("missing").is_none());
}

#[test]
fn per_session_fifo_order() {
    let (mut s, _rx) = AppState::new();
    s.register_session(reg("S1", 1, "P", 1), 0, 1000);
    let (first, _rx1) = s.queue_request("tool_a", serde_json::Value::Null).unwrap();
    let (second, _rx2) = s.queue_request("tool_b", serde_json::Value::Null).unwrap();
    assert_ne!(first, second);
    let got1 = s.get_pending_request_for_session("S1").unwrap();
    let got2 = s.get_pending_request_for_session("S1").unwrap();
    assert_eq!((got1.id, got1.tool), (first, "tool_a".to_string()));
    assert_eq!((got2.id, got2.tool), (second, "tool_b".to_string()));
    assert!(s.get_pending_request_for_session("S1").is_none());
}

#[test]
fn poll_unknown_session_yields_nothing() {
    let (mut s, _rx) = AppState::new();
    s.register_session(reg("S1", 1, "P", 1), 0, 1000);
    assert!(s.get_pending_request_for_session("S2").is_none());
}

#[test]
fn session_replacement_same_place() {
    let (mut s, _rx) = AppState::new();
    s.register_session(reg("A", 1, "P", 1), 0, 1000);
    s.register_session(reg("B", 1, "P", 1), 1, 1001);
    let infos = s.list_sessions();
    assert_eq!(infos.len(), 1);
    assert_eq!(infos[0].session_id, "B");
    assert_eq!(s.get_active_session(), Some("B"));
}

#[test]
fn reregistering_same_id_replaces_and_clears_queue() {
    let (mut s, _rx) = AppState::new();
    s.register_session(reg("A", 1, "P", 1), 0, 1000);
    s.queue_request("tool_a", serde_json::Value::Null).unwrap();
    s.register_session(reg("A", 2, "Q", 2), 1, 1001);
    let infos = s.list_sessions();
    assert_eq!(infos.len(), 1);
    assert_eq!(infos[0].place_id, 2);
    // the replaced session's pending queue is gone
    assert!(s.get_pending_request_for_session("A").is_none());
}

#[test]
fn switch_while_idle_routes_to_switched_session() {
    let (mut s, _rx) = AppState::new();
    s.register_session(reg("A", 1, "P", 1), 0, 1000);
    s.register_session(reg("B", 2, "Q", 2), 0, 1000);
    // the first session is connected, so it keeps the active role
    assert_eq!(s.get_active_session(), Some("A"));
    assert!(s.switch_session("B"));
    assert_eq!(s.get_active_session(), Some("B"));
    s.queue_request("tool_a", serde_json::Value::Null).unwrap();
    // the request sits on B's queue; A's queue is untouched
    assert!(s.get_pending_request_for_session("A").is_none());
    let got = s.get_pending_request_for_session("B").unwrap();
    assert_eq!(got.tool, "tool_a");
}

#[test]
fn switch_to_unknown_session_fails() {
    let (mut s, _rx) = AppState::new();
    s.register_session(reg("A", 1, "P", 1), 0, 1000);
    assert!(!s.switch_session("Z"));
    assert_eq!(s.get_active_session(), Some("A"));
}

#[test]
fn connected_threshold_boundary() {
    let (mut s, _rx) = AppState::new();
    s.register_session(reg("A", 1, "P", 1), 0, 1000);
    assert!(s.is_session_connected("A", 29));
    assert!(!s.is_session_connected("A", 30));
    assert!(!s.is_session_connected("Z", 0));
    // a heartbeat brings a stale session back
    s.heartbeat("A", 40);
    assert!(s.is_session_connected("A", 40));
    assert!(s.is_plugin_connected(40));
}

#[test]
fn heartbeat_on_unknown_session_is_a_no_op() {
    let (mut s, _rx) = AppState::new();
    s.register_session(reg("A", 1, "P", 1), 0, 1000);
    s.heartbeat("Z", 40);
    assert!(!s.is_plugin_connected(40));
}

#[test]
fn reap_removes_only_stale_sessions() {
    let (mut s, _rx) = AppState::new();
    s.register_session(reg("A", 1, "P", 1), 0, 1000);
    s.register_session(reg("B", 2, "Q", 2), 30, 1030);
    // at 61, A's heartbeat age is 61 (> 60) and B's is 31 (kept)
    s.cleanup_expired(61);
    let infos = s.list_sessions();
    assert_eq!(infos.len(), 1);
    assert_eq!(infos[0].session_id, "B");
    // the active role moved off the reaped session
    assert_eq!(s.get_active_session(), Some("B"));
}

#[test]
fn reap_boundary_is_strict() {
    let (mut s, _rx) = AppState::new();
    s.register_session(reg("A", 1, "P", 1), 0, 1000);
    s.cleanup_expired(60);
    assert_eq!(s.list_sessions().len(), 1);
    s.cleanup_expired(61);
    assert_eq!(s.list_sessions().len(), 0);
    assert_eq!(s.get_active_session(), None);
}

#[test]
fn unregister_reassigns_active_session() {
    let (mut s, _rx) = AppState::new();
    s.register_session(reg("A", 1, "P", 1), 0, 1000);
    s.register_session(reg("B", 2, "Q", 2), 0, 1000);
    s.unregister_session("A");
    assert_eq!(s.get_active_session(), Some("B"));
    s.unregister_session("B");
    assert_eq!(s.get_active_session(), None);
    assert_eq!(s.list_sessions().len(), 0);
}

#[test]
fn unregister_non_active_keeps_active() {
    let (mut s, _rx) = AppState::new();
    s.register_session(reg("A", 1, "P", 1), 0, 1000);
    s.register_session(reg("B", 2, "Q", 2), 0, 1000);
    s.unregister_session("B");
    assert_eq!(s.get_active_session(), Some("A"));
    assert_eq!(s.list_sessions().len(), 1);
}

#[test]
fn deliver_unknown_id_is_rejected() {
    let (mut s, _rx) = AppState::new();
    s.register_session(reg("A", 1, "P", 1), 0, 1000);
    let delivered = s.deliver_response(PluginResponse {
        id: "no-such-id".to_string(),
        success: true,
        result: serde_json::Value::Null,
        error: None,
    });
    assert!(!delivered);
}

#[test]
fn deliver_consumes_exactly_one_entry() {
    let (mut s, _rx) = AppState::new();
    s.register_session(reg("A", 1, "P", 1), 0, 1000);
    let (id1, _rx1) = s.queue_request("tool_a", serde_json::Value::Null).unwrap();
    let (id2, _rx2) = s.queue_request("tool_b", serde_json::Value::Null).unwrap();
    assert!(s.deliver_response(ok_response(&id1)));
    // the first entry is consumed, the second still lives
    assert!(!s.deliver_response(ok_response(&id1)));
    assert!(s.deliver_response(ok_response(&id2)));
}

fn ok_response(id: &str) -> PluginResponse {
    PluginResponse {
        id: id.to_string(),
        success: true,
        result: serde_json::Value::Null,
        error: None,
    }
}

#[test]
fn no_response_leak_after_caller_gives_up() {
    let (mut s, _rx) = AppState::new();
    s.register_session(reg("A", 1, "P", 1), 0, 1000);
    let (id, reply_rx) = s.queue_request("run_code", serde_json::Value::Null).unwrap();
    // the caller times out and drops its reply handle
    drop(reply_rx);
    // the sweep removes the abandoned correlation entry
    s.cleanup_expired(1);
    // a late response finds nothing: the plugin gets a rejection
    let delivered = s.deliver_response(PluginResponse {
        id,
        success: true,
        result: serde_json::Value::Null,
        error: None,
    });
    assert!(!delivered);
}

#[test]
fn late_response_without_sweep_is_dropped_quietly() {
    let (mut s, _rx) = AppState::new();
    s.register_session(reg("A", 1, "P", 1), 0, 1000);
    let (id, reply_rx) = s.queue_request("run_code", serde_json::Value::Null).unwrap();
    drop(reply_rx);
    // the entry still exists, so the delivery is accepted and the
    // response vanishes with it
    let delivered = s.deliver_response(PluginResponse {
        id: id.clone(),
        success: true,
        result: serde_json::Value::Null,
        error: None,
    });
    assert!(delivered);
    let delivered_again = s.deliver_response(PluginResponse {
        id,
        success: true,
        result: serde_json::Value::Null,
        error: None,
    });
    assert!(!delivered_again);
}

#[test]
fn connected_implies_registered() {
    let (mut s, _rx) = AppState::new();
    s.register_session(reg("A", 1, "P", 1), 0, 1000);
    if s.is_plugin_connected(0) {
        let active = s.get_active_session().unwrap().to_string();
        assert!(s.list_sessions().iter().any(|i| i.session_id == active));
    } else {
        panic!("a freshly registered session counts as connected");
    }
}

#[test]
fn active_session_info_matches_registration() {
    let (mut s, _rx) = AppState::new();
    assert!(s.get_active_session_info().is_none());
    s.register_session(reg("A", 7, "Place", 9), 0, 1234);
    let info = s.get_active_session_info().expect("active session set");
    assert_eq!(info.session_id, "A");
    assert_eq!(info.place_id, 7);
    assert_eq!(info.place_name, "Place");
    assert_eq!(info.game_id, 9);
    assert_eq!(info.connected_at, 1234);
}

#[test]
fn register_reaps_stale_sessions() {
    let (mut s, _rx) = AppState::new();
    s.register_session(reg("A", 1, "P", 1), 0, 1000);
    // at 61, A's heartbeat age is over the reap threshold; registering B
    // cleans A out even though their places differ
    s.register_session(reg("B", 2, "Q", 2), 61, 1061);
    let infos = s.list_sessions();
    assert_eq!(infos.len(), 1);
    assert_eq!(infos[0].session_id, "B");
    assert_eq!(s.get_active_session(), Some("B"));
}

#[test]
fn register_takes_over_from_stale_active() {
    let (mut s, _rx) = AppState::new();
    s.register_session(reg("A", 1, "P", 1), 0, 1000);
    // at 40, A is stale (age 40) but not yet reaped (age below 60);
    // the new session takes the active role from it
    s.register_session(reg("B", 2, "Q", 2), 40, 1040);
    assert_eq!(s.list_sessions().len(), 2);
    assert_eq!(s.get_active_session(), Some("B"));
    assert!(s.is_plugin_connected(40));
}
