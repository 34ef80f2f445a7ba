use kitmap::db::models::{KeyCombo, KeyEvent, Session, Timestamp, TypingSample};
use kitmap::db::schema::clear_all_data;
use kitmap::db::{init_test_db, EventStore, StoreError};

fn stamp(text: &str, unix_millis: i64) -> Timestamp {
    Timestamp { rfc3339: text.to_string(), unix_millis, hour: 7, day_of_week: 3 }
}

#[test]
fn new_store_is_empty() {
    let db = init_test_db();
    assert!(db.key_events().is_empty());
    assert!(db.key_combos().is_empty());
    assert!(db.sessions().is_empty());
    assert!(db.typing_samples().is_empty());
}

#[test]
fn saved_event_gets_the_next_identifier() {
    let mut db = init_test_db();
    let event = KeyEvent::at("KeyA".to_string(), "KeyA".to_string(), false, stamp("t", 5));
    assert_eq!(event.id, None);
    assert_eq!(event.save(&mut db), Ok(()));
    assert_eq!(event.save(&mut db), Ok(()));
    let rows = db.key_events();
    assert_eq!(rows.len(), 2);
    assert_eq!(rows[0].id, Some(1));
    assert_eq!(rows[1].id, Some(2));
    assert_eq!(rows[1].key_code, "KeyA");
    assert_eq!(rows[1].key_name, "KeyA");
    assert!(!rows[1].is_modifier);
    assert_eq!(rows[1].timestamp.rfc3339, "t");
    assert_eq!(rows[1].timestamp.unix_millis, 5);
    assert_eq!(rows[1].timestamp.hour, 7);
    assert_eq!(rows[1].timestamp.day_of_week, 3);
}

#[test]
fn identifiers_are_not_handed_out_again_after_clearing() {
    let mut db = init_test_db();
    let mut first = Session::starting_at(stamp("a", 1));
    assert_eq!(first.start(&mut db), Ok(1));
    clear_all_data(&mut db);
    let mut second = Session::starting_at(stamp("b", 2));
    assert_eq!(second.start(&mut db), Ok(2));
    assert_eq!(db.sessions().len(), 1);
    assert_eq!(db.sessions()[0].id, Some(2));
}

#[test]
fn full_table_refuses_rows() {
    let mut db = EventStore::starting_after(i64::MAX, i64::MAX, i64::MAX, i64::MAX).unwrap();
    let event = KeyEvent::at("KeyA".to_string(), "KeyA".to_string(), false, stamp("t", 5));
    assert_eq!(event.save(&mut db), Err(StoreError::Full));
    assert_eq!(KeyCombo::at("x".to_string(), stamp("t", 5)).save(&mut db), Err(StoreError::Full));
    assert_eq!(TypingSample::at(1, stamp("t", 5)).save(&mut db), Err(StoreError::Full));
    let mut session = Session::starting_at(stamp("t", 5));
    assert_eq!(session.start(&mut db), Err(StoreError::Full));
    assert_eq!(session.id, None);
    assert!(db.key_events().is_empty());
    assert!(db.key_combos().is_empty());
    assert!(db.sessions().is_empty());
    assert!(db.typing_samples().is_empty());
}

#[test]
fn last_identifier_can_still_be_handed_out() {
    let mut db = EventStore::starting_after(i64::MAX - 1, 0, 0, 0).unwrap();
    let event = KeyEvent::at("KeyA".to_string(), "KeyA".to_string(), false, stamp("t", 5));
    assert_eq!(db.insert_key_event(&event), Ok(i64::MAX));
    assert_eq!(db.insert_key_event(&event), Err(StoreError::Full));
    assert_eq!(db.key_events().len(), 1);
}

#[test]
fn no_store_starts_after_a_negative_identifier() {
    assert!(EventStore::starting_after(-1, 0, 0, 0).is_none());
    assert!(EventStore::starting_after(0, -1, 0, 0).is_none());
    assert!(EventStore::starting_after(0, 0, -1, 0).is_none());
    assert!(EventStore::starting_after(0, 0, 0, -1).is_none());
    assert!(EventStore::starting_after(0, 0, 0, 0).is_some());
}

#[test]
fn session_start_stores_an_open_row() {
    let mut db = init_test_db();
    let mut session = Session::starting_at(stamp("start", 100));
    session.total_keys = 4;
    session.end_time = Some(stamp("stale", 50));
    assert_eq!(session.start(&mut db), Ok(1));
    assert_eq!(session.id, Some(1));
    let row = &db.sessions()[0];
    assert_eq!(row.id, Some(1));
    assert_eq!(row.start_time.rfc3339, "start");
    assert!(row.end_time.is_none());
    assert_eq!(row.total_keys, 4);
}

#[test]
fn session_end_updates_its_own_row_only() {
    let mut db = init_test_db();
    let mut first = Session::starting_at(stamp("a", 1));
    first.start(&mut db).unwrap();
    let mut second = Session::starting_at(stamp("b", 2));
    second.start(&mut db).unwrap();
    second.increment_keys();
    second.increment_keys();
    second.end_at(&mut db, stamp("end", 9));
    assert_eq!(second.end_time.as_ref().unwrap().rfc3339, "end");
    let rows = db.sessions();
    assert!(rows[0].end_time.is_none());
    assert_eq!(rows[0].total_keys, 0);
    assert_eq!(rows[1].end_time.as_ref().unwrap().unix_millis, 9);
    assert_eq!(rows[1].total_keys, 2);
}

#[test]
fn ending_a_session_twice_changes_nothing_more() {
    let mut db = init_test_db();
    let mut session = Session::starting_at(stamp("a", 1));
    session.start(&mut db).unwrap();
    session.increment_keys();
    session.end_at(&mut db, stamp("end", 9));
    let once = format!("{:?}", db);
    session.end_at(&mut db, stamp("end", 9));
    assert_eq!(format!("{:?}", db), once);
}

#[test]
fn ending_an_unstarted_session_touches_no_row() {
    let mut db = init_test_db();
    let mut stored = Session::starting_at(stamp("a", 1));
    stored.start(&mut db).unwrap();
    let mut loose = Session::starting_at(stamp("b", 2));
    loose.end_at(&mut db, stamp("end", 9));
    assert!(loose.end_time.is_some());
    assert!(db.sessions()[0].end_time.is_none());
}

#[test]
fn finalize_session_says_whether_a_row_was_there() {
    let mut db = init_test_db();
    let mut stored = Session::starting_at(stamp("a", 1));
    stored.start(&mut db).unwrap();
    assert!(db.finalize_session(1, &stamp("end", 9), 3));
    assert!(!db.finalize_session(2, &stamp("end", 9), 3));
    assert_eq!(db.sessions()[0].total_keys, 3);
}

#[test]
fn records_made_now_carry_a_calendar_time() {
    let event = KeyEvent::new("KeyA".to_string(), "KeyA".to_string(), true);
    assert_eq!(event.id, None);
    assert_eq!(event.key_code, "KeyA");
    assert_eq!(event.key_name, "KeyA");
    assert!(event.is_modifier);
    assert!(event.timestamp.hour < 24);
    assert!(event.timestamp.day_of_week < 7);
    assert!(event.timestamp.unix_millis > 1_600_000_000_000);
    assert!(event.timestamp.rfc3339.len() >= 19);
    let combo = KeyCombo::new("ShiftLeft+KeyA".to_string());
    assert_eq!(combo.id, None);
    assert_eq!(combo.combo, "ShiftLeft+KeyA");
    let sample = TypingSample::new(30_000);
    assert_eq!(sample.milli_chars_per_minute, 30_000);
    let mut session = Session::new();
    assert_eq!(session.id, None);
    assert!(session.end_time.is_none());
    assert_eq!(session.total_keys, 0);
    let mut db = init_test_db();
    session.start(&mut db).unwrap();
    session.end(&mut db);
    let end = session.end_time.as_ref().unwrap();
    assert!(end.hour < 24);
    assert!(end.unix_millis >= session.start_time.unix_millis);
    assert_eq!(db.sessions()[0].end_time.as_ref().unwrap().rfc3339, end.rfc3339);
}

#[test]
fn clones_keep_every_field() {
    let event = KeyEvent::at("c".to_string(), "n".to_string(), true, stamp("t", 5));
    let copy = event.clone();
    assert_eq!(format!("{:?}", copy), format!("{:?}", event));
}
