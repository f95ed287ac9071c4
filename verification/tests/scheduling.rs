use cinema_sessions::errors::SessionError;
use cinema_sessions::models::SessionUpdate;
use cinema_sessions::pipeline::add_ws_session;
use cinema_sessions::pipeline::delete_ws_session;
use cinema_sessions::pipeline::get_sessions;
use cinema_sessions::pipeline::update_ws_session;
use cinema_sessions::store::SessionStore;
use cinema_sessions::ids::id_to_hex;

fn hour(h: i64) -> i64 {
    h * 3_600_000
}

fn payload(hall: Option<u128>, start: Option<i64>, end: Option<i64>) -> SessionUpdate {
    SessionUpdate { movie_id: None, hall_id: hall, title: None, start, end, poster: None }
}

#[test]
fn hall_conflict_scenarios() {
    let mut store = SessionStore::new();
    // Hall H1 (=1) has a session 09:00-11:00.
    let r = add_ws_session(&mut store, payload(Some(1), Some(hour(9)), Some(hour(11))));
    assert!(r.is_ok());

    // Adding 10:00-12:00 in H1 is rejected with SchedulingConflict.
    let r = add_ws_session(&mut store, payload(Some(1), Some(hour(10)), Some(hour(12))));
    assert_eq!(r.err(), Some(SessionError::SchedulingConflict));

    // Adding 11:00-12:00 in H1 (back to back) succeeds.
    let r = add_ws_session(&mut store, payload(Some(1), Some(hour(11)), Some(hour(12))));
    assert!(r.is_ok());

    // Adding 09:00-11:00 in a different hall H2 (=2) succeeds.
    let r = add_ws_session(&mut store, payload(Some(2), Some(hour(9)), Some(hour(11))));
    assert!(r.is_ok());
}

#[test]
fn update_shift_earlier_no_self_conflict() {
    let mut store = SessionStore::new();
    let created = add_ws_session(&mut store, payload(Some(1), Some(hour(9)), Some(hour(11))))
        .expect("create should succeed");
    let id_hex = id_to_hex(created.id.unwrap());
    // Shifting the same session to 08:00-09:00 does not conflict with itself.
    let r = update_ws_session(&mut store, &id_hex, payload(Some(1), Some(hour(8)), Some(hour(9))));
    let updated = r.expect("update should succeed");
    assert_eq!(updated.start, Some(hour(8)));
    assert_eq!(updated.end, Some(hour(9)));
}

#[test]
fn create_rejects_empty_interval_before_store() {
    let mut store = SessionStore::new();
    // end == start
    let r = add_ws_session(&mut store, payload(Some(1), Some(hour(9)), Some(hour(9))));
    assert_eq!(r.err(), Some(SessionError::InvalidInterval));
    // end < start
    let r = add_ws_session(&mut store, payload(Some(1), Some(hour(9)), Some(hour(8))));
    assert_eq!(r.err(), Some(SessionError::InvalidInterval));
    // missing end
    let r = add_ws_session(&mut store, payload(Some(1), Some(hour(9)), None));
    assert_eq!(r.err(), Some(SessionError::InvalidInterval));
    // missing hall
    let r = add_ws_session(&mut store, payload(None, Some(hour(9)), Some(hour(10))));
    assert_eq!(r.err(), Some(SessionError::InvalidInterval));
    // the store was never touched
    assert_eq!(get_sessions(&store).len(), 0);
}

#[test]
fn title_only_update_succeeds_despite_neighbors() {
    let mut store = SessionStore::new();
    let created = add_ws_session(&mut store, payload(Some(1), Some(hour(9)), Some(hour(11))))
        .expect("create should succeed");
    // A busy hall: another session right after.
    add_ws_session(&mut store, payload(Some(1), Some(hour(11)), Some(hour(13))))
        .expect("create should succeed");
    let id_hex = id_to_hex(created.id.unwrap());
    let update = SessionUpdate {
        movie_id: None,
        hall_id: None,
        title: Some("Matinee".to_string()),
        start: None,
        end: None,
        poster: None,
    };
    let updated = update_ws_session(&mut store, &id_hex, update).expect("update should succeed");
    assert_eq!(updated.title, Some("Matinee".to_string()));
    // The update is a full overwrite: the omitted instants are cleared.
    assert_eq!(updated.start, None);
    assert_eq!(updated.end, None);
}

#[test]
fn delete_missing_id_leaves_store_unchanged() {
    let mut store = SessionStore::new();
    add_ws_session(&mut store, payload(Some(1), Some(hour(9)), Some(hour(11))))
        .expect("create should succeed");
    let before = get_sessions(&store);
    let r = delete_ws_session(&mut store, &id_to_hex(999));
    assert_eq!(r.err(), Some(SessionError::NotFound));
    let after = get_sessions(&store);
    assert_eq!(before.len(), after.len());
    assert_eq!(before[0].id, after[0].id);
}

#[test]
fn delete_bad_id_is_bad_request() {
    let mut store = SessionStore::new();
    let r = delete_ws_session(&mut store, "not-a-hex-id");
    assert_eq!(r.err(), Some(SessionError::BadRequest));
    let r = delete_ws_session(&mut store, "");
    assert_eq!(r.err(), Some(SessionError::BadRequest));
}

#[test]
fn delete_reports_message_and_id() {
    let mut store = SessionStore::new();
    let created = add_ws_session(&mut store, payload(Some(1), Some(hour(9)), Some(hour(11))))
        .expect("create should succeed");
    let id_hex = id_to_hex(created.id.unwrap());
    let resp = delete_ws_session(&mut store, &id_hex).expect("delete should succeed");
    assert_eq!(resp.message, "Session deleted successfully");
    assert_eq!(resp.id, id_hex);
    assert_eq!(get_sessions(&store).len(), 0);
}

#[test]
fn boundary_touch_is_not_a_conflict() {
    let mut store = SessionStore::new();
    add_ws_session(&mut store, payload(Some(1), Some(hour(9)), Some(hour(11))))
        .expect("create should succeed");
    // Candidate starting exactly at the existing end.
    assert!(store.is_hall_available(1, hour(11), hour(12), None));
    // Candidate ending exactly at the existing start.
    assert!(store.is_hall_available(1, hour(8), hour(9), None));
    // Properly crossing candidates conflict.
    assert!(!store.is_hall_available(1, hour(10), hour(12), None));
    assert!(!store.is_hall_available(1, hour(8), hour(10), None));
    assert!(!store.is_hall_available(1, hour(9), hour(11), None));
    // A degenerate candidate conflicts with nothing.
    assert!(store.is_hall_available(1, hour(10), hour(10), None));
}

#[test]
fn exclusion_never_reports_self_conflict() {
    let mut store = SessionStore::new();
    let created = add_ws_session(&mut store, payload(Some(1), Some(hour(9)), Some(hour(11))))
        .expect("create should succeed");
    let id = created.id.unwrap();
    // The only overlap is the session itself: excluded, so the hall is free.
    assert!(store.is_hall_available(1, hour(9), hour(11), Some(id)));
    assert!(store.is_hall_available(1, hour(10), hour(12), Some(id)));
    // Without the exclusion the same candidate conflicts.
    assert!(!store.is_hall_available(1, hour(9), hour(11), None));
}

#[test]
fn count_overlapping_counts_exactly() {
    let mut store = SessionStore::new();
    add_ws_session(&mut store, payload(Some(1), Some(hour(9)), Some(hour(11)))).unwrap();
    add_ws_session(&mut store, payload(Some(1), Some(hour(11)), Some(hour(13)))).unwrap();
    add_ws_session(&mut store, payload(Some(2), Some(hour(9)), Some(hour(11)))).unwrap();
    assert_eq!(store.count_overlapping(1, hour(10), hour(12), None), 2);
    assert_eq!(store.count_overlapping(1, hour(10), hour(11), None), 1);
    assert_eq!(store.count_overlapping(2, hour(10), hour(12), None), 1);
    assert_eq!(store.count_overlapping(3, hour(10), hour(12), None), 0);
}

#[test]
fn update_resolves_hall_from_existing_record() {
    let mut store = SessionStore::new();
    let created = add_ws_session(&mut store, payload(Some(1), Some(hour(9)), Some(hour(11))))
        .expect("create should succeed");
    let id_hex = id_to_hex(created.id.unwrap());
    // Hall omitted: falls back to the record's hall, and the new interval
    // still conflicts with a neighbor there.
    add_ws_session(&mut store, payload(Some(1), Some(hour(12)), Some(hour(14)))).unwrap();
    let r = update_ws_session(&mut store, &id_hex, payload(None, Some(hour(13)), Some(hour(15))));
    assert_eq!(r.err(), Some(SessionError::SchedulingConflict));
    // Moving to a different hall clears the conflict.
    let r = update_ws_session(&mut store, &id_hex, payload(Some(2), Some(hour(13)), Some(hour(15))));
    assert!(r.is_ok());
}

#[test]
fn update_missing_id_is_not_found() {
    let mut store = SessionStore::new();
    let r = update_ws_session(&mut store, &id_to_hex(7), payload(Some(1), None, None));
    assert_eq!(r.err(), Some(SessionError::NotFound));
}

#[test]
fn update_rejects_inverted_interval() {
    let mut store = SessionStore::new();
    let created = add_ws_session(&mut store, payload(Some(1), Some(hour(9)), Some(hour(11))))
        .expect("create should succeed");
    let id_hex = id_to_hex(created.id.unwrap());
    let r = update_ws_session(&mut store, &id_hex, payload(Some(1), Some(hour(11)), Some(hour(9))));
    assert_eq!(r.err(), Some(SessionError::InvalidInterval));
}

#[test]
fn error_messages_name_each_failure() {
    assert_eq!(SessionError::BadRequest.message(), "Bad request");
    assert_eq!(SessionError::InvalidInterval.message(), "Invalid interval");
    assert_eq!(SessionError::NotFound.message(), "Session not found");
    assert_eq!(SessionError::SchedulingConflict.message(), "Scheduling conflict");
    assert_eq!(SessionError::Unsupported.message(), "Unsupported action");
    assert_eq!(SessionError::StoreFailure.message(), "Store failure");
}

#[test]
fn update_without_id_is_bad_request() {
    let mut store = SessionStore::new();
    add_ws_session(&mut store, payload(Some(1), Some(hour(9)), Some(hour(11)))).unwrap();
    let r = update_ws_session(&mut store, "", payload(Some(1), None, None));
    assert_eq!(r.err(), Some(SessionError::BadRequest));
}
