use kitmap::clock::MonotonicClock;
use kitmap::commands::held::{is_modifier, HeldModifiers};
use kitmap::commands::listen::{persist, ListenState, Recorded};
use kitmap::commands::script::{KeyTransition, TimedTransition};
use kitmap::db::models::{KeyEvent, Timestamp};
use kitmap::db::{init_test_db, EventStore};
use kitmap::stats::calculator::StatsCalculator;

const SECOND: u128 = 1_000_000_000;

fn stamp(text: &str) -> Timestamp {
    Timestamp { rfc3339: text.to_string(), unix_millis: 1_000, hour: 14, day_of_week: 2 }
}

fn fresh() -> ListenState {
    ListenState::starting_at(stamp("start"), 0)
}

fn press(key: &str, now: u128) -> TimedTransition {
    TimedTransition { transition: KeyTransition::Press(key.to_string()), at: stamp("p"), now }
}

fn release(key: &str, now: u128) -> TimedTransition {
    TimedTransition { transition: KeyTransition::Release(key.to_string()), at: stamp("r"), now }
}

fn combos(db: &EventStore) -> Vec<String> {
    db.key_combos().iter().map(|c| c.combo.clone()).collect()
}

#[test]
fn the_eight_modifiers_are_modifiers() {
    for name in [
        "ShiftLeft",
        "ShiftRight",
        "ControlLeft",
        "ControlRight",
        "Alt",
        "AltGr",
        "MetaLeft",
        "MetaRight",
    ] {
        assert!(is_modifier(name), "{}", name);
    }
    for name in ["KeyA", "Space", "shiftleft", "Shift", "ShiftLeft ", "", "CapsLock", "Meta"] {
        assert!(!is_modifier(name), "{}", name);
    }
}

#[test]
fn fresh_state_has_counted_nothing() {
    let state = ListenState::starting_at(stamp("start"), 77);
    assert_eq!(state.session.id, None);
    assert_eq!(state.session.start_time.rfc3339, "start");
    assert!(state.session.end_time.is_none());
    assert_eq!(state.session.total_keys, 0);
    assert!(state.pressed_modifiers.is_empty());
    assert_eq!(state.last_key_time, None);
    assert_eq!(state.keys_in_interval, 0);
    assert_eq!(state.interval_start, 77);
    assert_eq!(state.total_keys, 0);
    assert!(state.has_room());
}

#[test]
fn press_is_recorded_as_an_event() {
    let mut state = fresh();
    let out = state.record_key_event_at("KeyA", stamp("t1"), 5);
    assert_eq!(out.event.id, None);
    assert_eq!(out.event.key_code, "KeyA");
    assert_eq!(out.event.key_name, "KeyA");
    assert!(!out.event.is_modifier);
    assert_eq!(out.event.timestamp.rfc3339, "t1");
    assert!(out.combo.is_none());
    assert!(out.sample.is_none());
    assert_eq!(state.total_keys, 1);
    assert_eq!(state.session.total_keys, 1);
    assert_eq!(state.keys_in_interval, 1);
    assert_eq!(state.interval_start, 0);
    assert_eq!(state.last_key_time, Some(5));
}

#[test]
fn combo_names_held_modifiers_in_name_order() {
    let mut state = fresh();
    let mut db = init_test_db();
    state.on_key_press_at(&mut db, "ShiftLeft", stamp("a"), 1);
    state.on_key_press_at(&mut db, "ControlLeft", stamp("b"), 2);
    state.on_key_press_at(&mut db, "Alt", stamp("c"), 3);
    let out = state.on_key_press_at(&mut db, "KeyA", stamp("d"), 4);
    let combo = out.combo.unwrap();
    assert_eq!(combo.combo, "Alt+ControlLeft+ShiftLeft+KeyA");
    assert_eq!(combo.id, None);
    assert_eq!(combo.timestamp.rfc3339, "d");
    assert_eq!(combos(&db), vec!["Alt+ControlLeft+ShiftLeft+KeyA".to_string()]);
    assert_eq!(db.key_combos()[0].id, Some(1));
    assert_eq!(db.key_events().len(), 4);
}

#[test]
fn modifier_press_is_an_event_and_never_a_combo() {
    let mut state = fresh();
    let mut db = init_test_db();
    let first = state.on_key_press_at(&mut db, "ShiftLeft", stamp("a"), 1);
    assert!(first.event.is_modifier);
    assert!(first.combo.is_none());
    let second = state.on_key_press_at(&mut db, "ControlLeft", stamp("b"), 2);
    assert!(second.event.is_modifier);
    assert!(second.combo.is_none());
    assert_eq!(db.key_events().len(), 2);
    assert!(db.key_combos().is_empty());
    assert!(state.pressed_modifiers.contains("ShiftLeft"));
    assert!(state.pressed_modifiers.contains("ControlLeft"));
    assert_eq!(state.pressed_modifiers.len(), 2);
}

#[test]
fn no_combo_once_every_modifier_is_released() {
    let mut state = fresh();
    let mut db = init_test_db();
    state.on_key_press_at(&mut db, "ShiftLeft", stamp("a"), 1);
    state.on_key_press_at(&mut db, "KeyA", stamp("b"), 2);
    state.on_key_release("ShiftLeft");
    assert!(state.pressed_modifiers.is_empty());
    let out = state.on_key_press_at(&mut db, "KeyB", stamp("c"), 3);
    assert!(out.combo.is_none());
    assert_eq!(combos(&db), vec!["ShiftLeft+KeyA".to_string()]);
    assert_eq!(db.key_events().len(), 3);
}

#[test]
fn release_of_a_key_that_is_no_modifier_changes_nothing() {
    let mut state = fresh();
    let mut db = init_test_db();
    state.on_key_press_at(&mut db, "Alt", stamp("a"), 1);
    state.on_key_press_at(&mut db, "KeyA", stamp("b"), 2);
    state.on_key_release("KeyA");
    assert_eq!(state.pressed_modifiers.len(), 1);
    assert!(state.pressed_modifiers.contains("Alt"));
    assert_eq!(state.total_keys, 2);
    assert_eq!(db.key_events().len(), 2);
}

#[test]
fn pressing_a_held_modifier_again_holds_it_once() {
    let mut state = fresh();
    state.modifier_pressed("MetaLeft");
    state.modifier_pressed("MetaLeft");
    assert_eq!(state.pressed_modifiers.len(), 1);
    state.modifier_released("MetaLeft");
    assert!(state.pressed_modifiers.is_empty());
    state.modifier_released("MetaLeft");
    assert!(state.pressed_modifiers.is_empty());
}

#[test]
fn held_set_joins_names_in_order() {
    let mut held = HeldModifiers::new();
    assert_eq!(held.combo_with("KeyA"), "KeyA");
    held.press("b");
    held.press("a");
    held.press("c");
    held.press("B");
    assert_eq!(held.combo_with("x"), "B+a+b+c+x");
    held.release("a");
    assert_eq!(held.combo_with("x"), "B+b+c+x");
    assert!(!held.contains("a"));
    assert!(held.contains("b"));
    let copy = held.clone();
    assert_eq!(copy.combo_with("y"), "B+b+c+y");
}

#[test]
fn sample_is_taken_after_ten_seconds() {
    let mut state = fresh();
    for i in 0..4u128 {
        let out = state.record_key_event_at("KeyA", stamp("t"), (i + 1) * SECOND);
        assert!(out.sample.is_none());
    }
    assert_eq!(state.keys_in_interval, 4);
    let out = state.record_key_event_at("KeyA", stamp("late"), 10 * SECOND);
    let sample = out.sample.unwrap();
    assert_eq!(sample.milli_chars_per_minute, 30_000);
    assert_eq!(sample.timestamp.rfc3339, "late");
    assert_eq!(state.keys_in_interval, 0);
    assert_eq!(state.interval_start, 10 * SECOND);
    assert_eq!(state.total_keys, 5);
    assert_eq!(state.session.total_keys, 5);
    let next = state.record_key_event_at("KeyA", stamp("t"), 19 * SECOND + 999_999_999);
    assert!(next.sample.is_none());
    assert_eq!(state.keys_in_interval, 1);
}

#[test]
fn sample_rate_is_rounded_down() {
    let mut state = fresh();
    let out = state.record_key_event_at("KeyA", stamp("t"), 7 * 3 * SECOND);
    assert_eq!(out.sample.unwrap().milli_chars_per_minute, 2_857);
}

#[test]
fn no_sample_just_short_of_ten_seconds() {
    let mut state = ListenState::starting_at(stamp("s"), 500);
    let out = state.record_key_event_at("KeyA", stamp("t"), 500 + 10 * SECOND - 1);
    assert!(out.sample.is_none());
    let out = state.record_key_event_at("KeyA", stamp("t"), 500 + 10 * SECOND);
    assert_eq!(out.sample.unwrap().milli_chars_per_minute, 12_000);
}

#[test]
fn clock_that_went_back_counts_as_no_time_passed() {
    let mut state = ListenState::starting_at(stamp("s"), 50 * SECOND);
    let out = state.record_key_event_at("KeyA", stamp("t"), 0);
    assert!(out.sample.is_none());
    assert_eq!(state.keys_in_interval, 1);
    assert_eq!(state.interval_start, 50 * SECOND);
    assert_eq!(state.last_key_time, Some(0));
}

#[test]
fn full_table_does_not_stop_the_others() {
    let mut db = EventStore::starting_after(i64::MAX, 0, 0, 0).unwrap();
    let mut state = fresh();
    state.modifier_pressed("Alt");
    let out = state.on_key_press_at(&mut db, "KeyA", stamp("t"), 10 * SECOND);
    assert!(out.combo.is_some());
    assert!(out.sample.is_some());
    assert!(db.key_events().is_empty());
    assert_eq!(db.key_combos().len(), 1);
    assert_eq!(db.typing_samples().len(), 1);
    assert_eq!(state.total_keys, 1);
}

#[test]
fn persist_offers_each_record_to_its_table() {
    let mut db = init_test_db();
    let recorded = Recorded {
        event: KeyEvent::at("KeyA".to_string(), "KeyA".to_string(), false, stamp("t")),
        combo: None,
        sample: None,
    };
    persist(&mut db, &recorded);
    persist(&mut db, &recorded);
    assert_eq!(db.key_events().len(), 2);
    assert!(db.key_combos().is_empty());
    assert!(db.typing_samples().is_empty());
}

#[test]
fn every_press_of_a_script_is_stored() {
    let script = vec![
        press("KeyA", 1),
        release("KeyA", 2),
        press("ShiftLeft", 3),
        press("KeyB", 4),
        press("KeyC", 5),
        release("ShiftLeft", 6),
        press("KeyD", 7),
        release("KeyD", 8),
        press("ControlLeft", 9),
        press("Alt", 10),
        press("Delete", 11),
        release("Alt", 12),
        press("Tab", 13),
        release("ControlLeft", 14),
        press("Tab", 15),
    ];
    let presses = script.iter().filter(|t| matches!(t.transition, KeyTransition::Press(_))).count();
    let mut state = fresh();
    let mut db = init_test_db();
    state.replay(&mut db, &script);
    assert_eq!(presses, 10);
    assert_eq!(db.key_events().len(), presses);
    assert_eq!(state.total_keys, presses as u64);
    assert_eq!(state.session.total_keys, presses as i64);
    let names: Vec<&str> = db.key_events().iter().map(|e| e.key_name.as_str()).collect();
    assert_eq!(
        names,
        vec![
            "KeyA",
            "ShiftLeft",
            "KeyB",
            "KeyC",
            "KeyD",
            "ControlLeft",
            "Alt",
            "Delete",
            "Tab",
            "Tab"
        ]
    );
    assert_eq!(
        combos(&db),
        vec![
            "ShiftLeft+KeyB".to_string(),
            "ShiftLeft+KeyC".to_string(),
            "Alt+ControlLeft+Delete".to_string(),
            "ControlLeft+Tab".to_string(),
        ]
    );
    assert!(state.pressed_modifiers.is_empty());
    assert!(db.sessions().is_empty());
}

#[test]
fn modifier_is_held_from_press_to_release() {
    let mut state = fresh();
    let mut db = init_test_db();
    state.replay(&mut db, &vec![press("AltGr", 1), press("KeyA", 2), release("KeyA", 3)]);
    assert!(state.pressed_modifiers.contains("AltGr"));
    state.replay(&mut db, &vec![press("ShiftRight", 4), release("ShiftRight", 5)]);
    assert!(state.pressed_modifiers.contains("AltGr"));
    assert!(!state.pressed_modifiers.contains("ShiftRight"));
    state.replay(&mut db, &vec![release("AltGr", 6), press("KeyB", 7)]);
    assert!(!state.pressed_modifiers.contains("AltGr"));
    assert!(!state.pressed_modifiers.contains("KeyA"));
    assert!(!state.pressed_modifiers.contains("KeyB"));
    assert_eq!(combos(&db), vec!["AltGr+KeyA".to_string()]);
}

#[test]
fn empty_script_changes_nothing() {
    let mut state = fresh();
    let mut db = init_test_db();
    state.replay(&mut db, &Vec::new());
    assert_eq!(state.total_keys, 0);
    assert!(db.key_events().is_empty());
}

#[test]
fn session_totals_follow_the_engine_counter() {
    let mut state = fresh();
    let mut db = init_test_db();
    assert_eq!(state.start_session(&mut db), Ok(1));
    assert_eq!(state.session.id, Some(1));
    state.replay(&mut db, &vec![press("KeyA", 1), press("KeyB", 2), press("KeyC", 3)]);
    assert_eq!(db.sessions()[0].total_keys, 0);
    assert!(db.sessions()[0].end_time.is_none());
    state.end_session_at(&mut db, stamp("end"));
    assert_eq!(db.sessions()[0].total_keys, 3);
    assert_eq!(db.sessions()[0].end_time.as_ref().unwrap().rfc3339, "end");
    assert_eq!(state.session.end_time.as_ref().unwrap().rfc3339, "end");
    let once = format!("{:?}", db);
    state.end_session_at(&mut db, stamp("end"));
    assert_eq!(format!("{:?}", db), once);
    let stats = StatsCalculator::new(db).calculate_all();
    assert_eq!(stats.total_keys, 3);
    assert_eq!(stats.total_sessions, 1);
}

#[test]
fn recording_now_reads_both_clocks() {
    let clock = MonotonicClock::start();
    let mut state = ListenState::new(&clock);
    let mut db = init_test_db();
    assert!(state.session.start_time.hour < 24);
    state.start_session(&mut db).unwrap();
    state.on_key_press(&mut db, &clock, "ControlRight");
    state.on_key_press(&mut db, &clock, "KeyC");
    state.on_key_release("ControlRight");
    state.record_key_event(&mut db, &clock, "KeyV");
    state.end_session(&mut db);
    assert_eq!(state.total_keys, 3);
    assert_eq!(db.key_events().len(), 3);
    assert_eq!(combos(&db), vec!["ControlRight+KeyC".to_string()]);
    assert!(db.key_events().iter().all(|e| e.timestamp.hour < 24 && e.timestamp.day_of_week < 7));
    assert!(state.last_key_time.is_some());
    let row = &db.sessions()[0];
    assert_eq!(row.total_keys, 3);
    assert!(row.end_time.is_some());
    let first = clock.nanos();
    let second = clock.nanos();
    assert!(second >= first);
}

#[test]
fn counters_at_their_limit_leave_no_room() {
    let mut state = fresh();
    assert!(state.has_room());
    state.keys_in_interval = u32::MAX;
    assert!(!state.has_room());
    state.keys_in_interval = 0;
    state.total_keys = u64::MAX;
    assert!(!state.has_room());
    state.total_keys = 0;
    state.session.total_keys = i64::MAX;
    assert!(!state.has_room());
}
