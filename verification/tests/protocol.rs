use cinema_sessions::codec::delete_data_to_json;
use cinema_sessions::codec::envelope_to_json;
use cinema_sessions::codec::error_data_to_json;
use cinema_sessions::codec::json_escape;
use cinema_sessions::codec::session_to_json;
use cinema_sessions::codec::sessions_to_json;
use cinema_sessions::dispatch::handle_message;
use cinema_sessions::dispatch::InboundMessage;
use cinema_sessions::hub::SharedState;
use cinema_sessions::ids::id_to_hex;
use cinema_sessions::models::SessionResponse;
use cinema_sessions::models::SessionUpdate;
use cinema_sessions::pipeline::add_ws_session;
use cinema_sessions::store::SessionStore;

fn hour(h: i64) -> i64 {
    h * 3_600_000
}

fn payload(hall: Option<u128>, start: Option<i64>, end: Option<i64>) -> SessionUpdate {
    SessionUpdate { movie_id: None, hall_id: hall, title: None, start, end, poster: None }
}

#[test]
fn escape_handles_quotes_backslashes_and_controls() {
    assert_eq!(json_escape("plain"), "plain");
    assert_eq!(json_escape("a\"b"), "a\\\"b");
    assert_eq!(json_escape("a\\b"), "a\\\\b");
    assert_eq!(json_escape("line\nbreak"), "line\\u000abreak");
    assert_eq!(json_escape("\t"), "\\u0009");
    assert_eq!(json_escape(""), "");
    assert_eq!(json_escape("héllo"), "héllo");
}

#[test]
fn session_renders_canonical_shape() {
    let resp = SessionResponse {
        id: Some(1),
        title: Some("Movie \"Night\"".to_string()),
        movie_id: None,
        hall_id: Some(2),
        start: Some(0),
        end: Some(hour(1)),
    };
    let expected = "{\"_id\":\"000000000000000000000001\",\"title\":\"Movie \\\"Night\\\"\",\"hall_id\":\"000000000000000000000002\",\"start\":\"1970-01-01T00:00:00.000Z\",\"end\":\"1970-01-01T01:00:00.000Z\"}";
    assert_eq!(session_to_json(&resp), expected);
}

#[test]
fn session_omits_absent_fields() {
    let resp = SessionResponse {
        id: Some(3),
        title: None,
        movie_id: None,
        hall_id: None,
        start: None,
        end: None,
    };
    assert_eq!(session_to_json(&resp), "{\"_id\":\"000000000000000000000003\"}");
}

#[test]
fn sessions_render_as_array() {
    let a = SessionResponse {
        id: Some(1),
        title: None,
        movie_id: None,
        hall_id: None,
        start: None,
        end: None,
    };
    let b = SessionResponse {
        id: Some(2),
        title: None,
        movie_id: None,
        hall_id: None,
        start: None,
        end: None,
    };
    assert_eq!(sessions_to_json(&vec![]), "[]");
    assert_eq!(
        sessions_to_json(&vec![a, b]),
        "[{\"_id\":\"000000000000000000000001\"},{\"_id\":\"000000000000000000000002\"}]"
    );
}

#[test]
fn envelope_and_error_data_render_exactly() {
    assert_eq!(
        envelope_to_json("add_session", "success", "{}"),
        "{\"action_type\":\"add_session\",\"status\":\"success\",\"data\":{}}"
    );
    assert_eq!(error_data_to_json("Bad request"), "{\"error\":\"Bad request\"}");
    assert_eq!(
        delete_data_to_json("0000000000000000000000ff"),
        "{\"message\":\"Session deleted successfully\",\"_id\":\"0000000000000000000000ff\"}"
    );
}

#[test]
fn timestamps_render_through_the_library_as_chrono_does() {
    // The library's rendering must agree with chrono's own.
    let resp = SessionResponse {
        id: None,
        title: None,
        movie_id: None,
        hall_id: None,
        start: Some(1_700_000_000_123),
        end: None,
    };
    let rendered = session_to_json(&resp);
    let expected = chrono::DateTime::<chrono::Utc>::from_timestamp_millis(1_700_000_000_123)
        .unwrap()
        .to_rfc3339_opts(chrono::SecondsFormat::Millis, true);
    assert_eq!(rendered, format!("{{\"start\":\"{}\"}}", expected));
    assert_eq!(expected, "2023-11-14T22:13:20.123Z");
}

#[test]
fn broadcast_fans_out_one_copy_per_subscriber() {
    let mut hub = SharedState::new();
    let k1 = hub.register();
    let k2 = hub.register();
    let k3 = hub.register();
    assert_eq!(hub.subscriber_count(), 3);
    let env = hub.broadcast("add_session", "success", "{}");
    assert_eq!(env, "{\"action_type\":\"add_session\",\"status\":\"success\",\"data\":{}}");
    // Each subscriber receives exactly one copy, independent of the others.
    assert_eq!(hub.pop_message(k3).as_deref(), Some(env.as_str()));
    assert_eq!(hub.pop_message(k1).as_deref(), Some(env.as_str()));
    assert_eq!(hub.pop_message(k1), None);
    assert_eq!(hub.pop_message(k2).as_deref(), Some(env.as_str()));
    assert_eq!(hub.pop_message(k2), None);
    assert_eq!(hub.pop_message(k3), None);
}

#[test]
fn subscriber_queues_keep_broadcast_order() {
    let mut hub = SharedState::new();
    let k = hub.register();
    hub.broadcast("error", "error", "{\"error\":\"first\"}");
    hub.broadcast("error", "error", "{\"error\":\"second\"}");
    let first = hub.pop_message(k).unwrap();
    let second = hub.pop_message(k).unwrap();
    assert!(first.contains("first"));
    assert!(second.contains("second"));
    assert_eq!(hub.pop_message(k), None);
}

#[test]
fn unregister_is_idempotent_and_stops_delivery() {
    let mut hub = SharedState::new();
    let k1 = hub.register();
    let k2 = hub.register();
    hub.unregister(k1);
    hub.unregister(k1);
    assert_eq!(hub.subscriber_count(), 1);
    hub.broadcast("error", "error", "{}");
    assert_eq!(hub.pop_message(k1), None);
    assert!(hub.pop_message(k2).is_some());
}

#[test]
fn dispatch_reports_missing_action_to_everyone() {
    let mut store = SessionStore::new();
    let mut hub = SharedState::new();
    let k1 = hub.register();
    let k2 = hub.register();
    let env = handle_message(&mut store, &mut hub, InboundMessage::Invalid);
    assert_eq!(
        env,
        "{\"action_type\":\"error\",\"status\":\"error\",\"data\":{\"error\":\"Action type is missing\"}}"
    );
    assert_eq!(hub.pop_message(k1).as_deref(), Some(env.as_str()));
    assert_eq!(hub.pop_message(k2).as_deref(), Some(env.as_str()));
}

#[test]
fn dispatch_rejects_unknown_action() {
    let mut store = SessionStore::new();
    let mut hub = SharedState::new();
    let k = hub.register();
    let msg = InboundMessage::Action { name: "reboot".to_string(), id: None, data: None };
    let env = handle_message(&mut store, &mut hub, msg);
    assert_eq!(
        env,
        "{\"action_type\":\"reboot\",\"status\":\"error\",\"data\":{\"error\":\"Unsupported action\"}}"
    );
    assert_eq!(hub.pop_message(k).as_deref(), Some(env.as_str()));
}

#[test]
fn dispatch_add_without_data_is_a_parse_error() {
    let mut store = SessionStore::new();
    let mut hub = SharedState::new();
    let msg = InboundMessage::Action { name: "add_session".to_string(), id: None, data: None };
    let env = handle_message(&mut store, &mut hub, msg);
    assert!(env.contains("\"status\":\"error\""));
    assert!(env.contains("Failed to parse session data"));
}

#[test]
fn two_subscribers_see_delete_and_listing_forgets_it() {
    let mut store = SessionStore::new();
    let mut hub = SharedState::new();
    let k1 = hub.register();
    let k2 = hub.register();

    let created = add_ws_session(&mut store, payload(Some(1), Some(hour(9)), Some(hour(11))))
        .expect("create should succeed");
    let id_hex = id_to_hex(created.id.unwrap());

    let msg = InboundMessage::Action {
        name: "delete_session".to_string(),
        id: Some(id_hex.clone()),
        data: None,
    };
    let env = handle_message(&mut store, &mut hub, msg);
    let expected = format!(
        "{{\"action_type\":\"delete_session\",\"status\":\"success\",\"data\":{{\"message\":\"Session deleted successfully\",\"_id\":\"{}\"}}}}",
        id_hex
    );
    assert_eq!(env, expected);
    assert_eq!(hub.pop_message(k1).as_deref(), Some(env.as_str()));
    assert_eq!(hub.pop_message(k2).as_deref(), Some(env.as_str()));

    // A later listing no longer carries the deleted id.
    let list_msg = InboundMessage::Action {
        name: "get_sessions".to_string(),
        id: None,
        data: None,
    };
    let listing = handle_message(&mut store, &mut hub, list_msg);
    assert_eq!(
        listing,
        "{\"action_type\":\"get_sessions\",\"status\":\"success\",\"data\":[]}"
    );
    assert!(!listing.contains(&id_hex));
}

#[test]
fn dispatch_add_and_update_report_success_with_canonical_record() {
    let mut store = SessionStore::new();
    let mut hub = SharedState::new();
    let k = hub.register();
    let msg = InboundMessage::Action {
        name: "add_session".to_string(),
        id: None,
        data: Some(SessionUpdate {
            movie_id: Some(0xabc),
            hall_id: Some(1),
            title: Some("Opening".to_string()),
            start: Some(0),
            end: Some(hour(2)),
            poster: None,
        }),
    };
    let env = handle_message(&mut store, &mut hub, msg);
    let expected = "{\"action_type\":\"add_session\",\"status\":\"success\",\"data\":{\"_id\":\"000000000000000000000001\",\"title\":\"Opening\",\"movie_id\":\"000000000000000000000abc\",\"hall_id\":\"000000000000000000000001\",\"start\":\"1970-01-01T00:00:00.000Z\",\"end\":\"1970-01-01T02:00:00.000Z\"}}";
    assert_eq!(env, expected);
    assert_eq!(hub.pop_message(k).as_deref(), Some(env.as_str()));

    // A conflicting add through the dispatcher reports the typed failure.
    let msg = InboundMessage::Action {
        name: "add_session".to_string(),
        id: None,
        data: Some(payload(Some(1), Some(hour(1)), Some(hour(3)))),
    };
    let env = handle_message(&mut store, &mut hub, msg);
    assert_eq!(
        env,
        "{\"action_type\":\"add_session\",\"status\":\"error\",\"data\":{\"error\":\"Scheduling conflict\"}}"
    );
}
