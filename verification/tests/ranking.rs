use kitmap::db::models::{KeyCombo, KeyEvent, Timestamp};
use kitmap::stats::calculator::{day_label, leading, most_active_day, DailyStats};
use kitmap::stats::counting::{
    combo_texts_of, count_class, count_key_name, key_names_of, KeyClass,
};
use kitmap::stats::ranking::{rank, ranking, stands_before, tally, NameCount};
use kitmap::stats::ratio::Ratio;

fn names(list: &[&str]) -> Vec<String> {
    list.iter().map(|s| s.to_string()).collect()
}

fn entry(name: &str, count: i64) -> NameCount {
    NameCount { name: name.to_string(), count }
}

fn listed(entries: &[NameCount]) -> Vec<(String, i64)> {
    entries.iter().map(|e| (e.name.clone(), e.count)).collect()
}

fn event(name: &str, is_modifier: bool, hour: u32, day_of_week: u32) -> KeyEvent {
    let at = Timestamp { rfc3339: "t".to_string(), unix_millis: 0, hour, day_of_week };
    KeyEvent::at(name.to_string(), name.to_string(), is_modifier, at)
}

#[test]
fn tally_groups_in_order_of_first_appearance() {
    let t = tally(&names(&["b", "a", "b", "c", "a", "b"]));
    assert_eq!(
        listed(&t),
        vec![("b".to_string(), 3), ("a".to_string(), 2), ("c".to_string(), 1)]
    );
    assert!(tally(&Vec::new()).is_empty());
}

#[test]
fn rank_orders_by_count_and_then_by_name() {
    let r = rank(vec![entry("b", 1), entry("z", 5), entry("a", 1), entry("m", 5), entry("c", 2)]);
    assert_eq!(
        listed(&r),
        vec![
            ("m".to_string(), 5),
            ("z".to_string(), 5),
            ("c".to_string(), 2),
            ("a".to_string(), 1),
            ("b".to_string(), 1),
        ]
    );
    assert!(rank(Vec::new()).is_empty());
}

#[test]
fn ranking_counts_and_orders() {
    let r = ranking(&names(&["x", "y", "x", "Y", "y", "x", "a"]));
    assert_eq!(
        listed(&r),
        vec![
            ("x".to_string(), 3),
            ("y".to_string(), 2),
            ("Y".to_string(), 1),
            ("a".to_string(), 1),
        ]
    );
}

#[test]
fn standing_before_is_a_strict_order() {
    assert!(stands_before(&entry("b", 2), &entry("a", 1)));
    assert!(!stands_before(&entry("a", 1), &entry("b", 2)));
    assert!(stands_before(&entry("a", 1), &entry("b", 1)));
    assert!(!stands_before(&entry("b", 1), &entry("a", 1)));
    assert!(!stands_before(&entry("a", 1), &entry("a", 1)));
}

#[test]
fn leading_takes_at_most_the_limit() {
    let full = vec![entry("a", 3), entry("b", 2), entry("c", 1)];
    assert_eq!(listed(&leading(&full, 2)), vec![("a".to_string(), 3), ("b".to_string(), 2)]);
    assert_eq!(listed(&leading(&full, 3)), listed(&full));
    assert_eq!(listed(&leading(&full, 9)), listed(&full));
    assert!(leading(&full, 0).is_empty());
    let copy = full[0].clone();
    assert_eq!((copy.name, copy.count), ("a".to_string(), 3));
}

#[test]
fn counting_by_name_and_by_class() {
    let events = vec![
        event("a", false, 1, 0),
        event("ShiftLeft", true, 1, 0),
        event("5", false, 2, 6),
        event("KeyA", false, 2, 6),
        event("a", false, 23, 3),
    ];
    assert_eq!(count_key_name(&events, "a"), 2);
    assert_eq!(count_key_name(&events, "A"), 0);
    assert_eq!(count_class(&events, KeyClass::Modifier), 1);
    assert_eq!(count_class(&events, KeyClass::Letter), 2);
    assert_eq!(count_class(&events, KeyClass::Number), 2);
    assert_eq!(count_class(&events, KeyClass::Hour(2)), 2);
    assert_eq!(count_class(&events, KeyClass::Hour(0)), 0);
    assert_eq!(count_class(&events, KeyClass::Day(6)), 2);
    assert_eq!(count_class(&events, KeyClass::Day(7)), 0);
    assert!(KeyClass::Letter.test(&events[0]));
    assert!(!KeyClass::Letter.test(&events[3]));
    assert!(KeyClass::Number.test(&events[3]));
    assert_eq!(key_names_of(&events), names(&["a", "ShiftLeft", "5", "KeyA", "a"]));
}

#[test]
fn combo_texts_are_copied_in_order() {
    let at = Timestamp { rfc3339: "t".to_string(), unix_millis: 0, hour: 0, day_of_week: 0 };
    let combos = vec![
        KeyCombo::at("Alt+Tab".to_string(), at.clone()),
        KeyCombo::at("ControlLeft+KeyC".to_string(), at),
    ];
    assert_eq!(combo_texts_of(&combos), names(&["Alt+Tab", "ControlLeft+KeyC"]));
}

#[test]
fn days_are_named_from_monday() {
    let labels: Vec<String> = (0..7).map(day_label).collect();
    assert_eq!(
        labels,
        names(&["Monday", "Tuesday", "Wednesday", "Thursday", "Friday", "Saturday", "Sunday"])
    );
    assert_eq!(day_label(7), "Sunday");
}

#[test]
fn most_active_day_is_the_last_of_the_busiest() {
    let days: Vec<DailyStats> = [3, 5, 1, 5, 0, 2, 4]
        .iter()
        .enumerate()
        .map(|(d, count)| DailyStats { day: day_label(d as u32), count: *count })
        .collect();
    let busiest = most_active_day(20, &days).unwrap();
    assert_eq!(busiest.day, "Thursday");
    assert_eq!(busiest.count, 5);
    assert!(most_active_day(0, &days).is_none());
    assert!(most_active_day(20, &Vec::new()).is_none());
}

#[test]
fn ratio_is_zero_without_a_positive_denominator() {
    assert_eq!(Ratio::new(3, 4), Ratio { num: 3, den: 4 });
    assert_eq!(Ratio::new(-3, 4), Ratio { num: -3, den: 4 });
    assert_eq!(Ratio::new(3, 0), Ratio { num: 0, den: 1 });
    assert_eq!(Ratio::new(3, -4), Ratio { num: 0, den: 1 });
}
