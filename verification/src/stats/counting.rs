//! Counting rows by name and by class.

use vstd::prelude::*;
use crate::db::models::{KeyCombo, KeyComboView, KeyEvent, KeyEventView};
use crate::views::views;
use crate::text::{has_prefix, same_text, starts_with};

verus! {

/// The key names of a run of events, in order.
pub open spec fn key_names(events: Seq<KeyEventView>) -> Seq<Seq<char>> {
    Seq::new(events.len(), |i: int| events[i].key_name)
}

/// The combo strings of a run of combos, in order.
pub open spec fn combo_texts(combos: Seq<KeyComboView>) -> Seq<Seq<char>> {
    Seq::new(combos.len(), |i: int| combos[i].combo)
}

/// How often `name` occurs among `names`.
pub open spec fn occurrences(names: Seq<Seq<char>>, name: Seq<char>) -> nat
    decreases names.len(),
{
    if names.len() == 0 {
        0
    } else {
        occurrences(names.drop_last(), name) + if names.last() == name {
            1nat
        } else {
            0nat
        }
    }
}

/// A class of key events.
#[derive(Debug, Clone, Copy, PartialEq, Eq, Structural)]
pub enum KeyClass {
    /// The event is flagged as a modifier.
    Modifier,
    /// The key name is one ASCII letter.
    Letter,
    /// The key name is one ASCII digit, or begins with `Num` or with `Key`.
    Number,
    /// The event fell into this hour of the day.
    Hour(u32),
    /// The event fell onto this day of the week.
    Day(u32),
}

/// The name is a single ASCII letter.
pub open spec fn is_letter_name(name: Seq<char>) -> bool {
    name.len() == 1 && (('a' <= name[0] && name[0] <= 'z') || ('A' <= name[0] && name[0] <= 'Z'))
}

/// The name is a single ASCII digit, or begins with `Num` or with `Key`.
pub open spec fn is_number_name(name: Seq<char>) -> bool {
    ||| name.len() == 1 && '0' <= name[0] && name[0] <= '9'
    ||| has_prefix(name, "Num"@)
    ||| has_prefix(name, "Key"@)
}

impl KeyClass {
    /// Whether `event` belongs to the class.
    pub open spec fn holds(self, event: KeyEventView) -> bool {
        match self {
            KeyClass::Modifier => event.is_modifier,
            KeyClass::Letter => is_letter_name(event.key_name),
            KeyClass::Number => is_number_name(event.key_name),
            KeyClass::Hour(h) => event.timestamp.hour == h,
            KeyClass::Day(d) => event.timestamp.day_of_week == d,
        }
    }

    /// Whether `event` belongs to the class.
    pub fn test(self, event: &KeyEvent) -> (r: bool)
        ensures
            r == self.holds(event@),
    {
        match self {
            KeyClass::Modifier => event.is_modifier,
            KeyClass::Letter => {
                let name = event.key_name.as_str();
                if name.unicode_len() == 1 {
                    let c: char = name.get_char(0);
                    ('a' <= c && c <= 'z') || ('A' <= c && c <= 'Z')
                } else {
                    false
                }
            },
            KeyClass::Number => {
                let name = event.key_name.as_str();
                let digit = if name.unicode_len() == 1 {
                    let c: char = name.get_char(0);
                    '0' <= c && c <= '9'
                } else {
                    false
                };
                digit || starts_with(name, "Num") || starts_with(name, "Key")
            },
            KeyClass::Hour(h) => event.timestamp.hour == h,
            KeyClass::Day(d) => event.timestamp.day_of_week == d,
        }
    }
}

/// How many of `events` belong to `class`.
pub open spec fn class_count(events: Seq<KeyEventView>, class: KeyClass) -> nat
    decreases events.len(),
{
    if events.len() == 0 {
        0
    } else {
        class_count(events.drop_last(), class) + if class.holds(events.last()) {
            1nat
        } else {
            0nat
        }
    }
}

/// A name occurs at most as often as there are names.
pub proof fn lemma_occurrences_bounded(names: Seq<Seq<char>>, name: Seq<char>)
    ensures
        occurrences(names, name) <= names.len(),
    decreases names.len(),
{
    if names.len() > 0 {
        lemma_occurrences_bounded(names.drop_last(), name);
    }
}

/// A class holds at most as many events as there are events.
pub proof fn lemma_class_count_bounded(events: Seq<KeyEventView>, class: KeyClass)
    ensures
        class_count(events, class) <= events.len(),
    decreases events.len(),
{
    if events.len() > 0 {
        lemma_class_count_bounded(events.drop_last(), class);
    }
}

/// A name that occurs at least once occurs at some position.
pub proof fn lemma_occurrences_witness(names: Seq<Seq<char>>, name: Seq<char>) -> (k: int)
    requires
        occurrences(names, name) >= 1,
    ensures
        0 <= k < names.len(),
        names[k] == name,
    decreases names.len(),
{
    if names.last() == name {
        names.len() - 1
    } else {
        lemma_occurrences_witness(names.drop_last(), name)
    }
}

/// No name is at once a single letter and a number name, so the two classes
/// together hold at most as many events as there are events.
pub proof fn lemma_letters_and_numbers_disjoint(events: Seq<KeyEventView>)
    ensures
        class_count(events, KeyClass::Letter) + class_count(events, KeyClass::Number)
            <= events.len(),
    decreases events.len(),
{
    if events.len() > 0 {
        lemma_letters_and_numbers_disjoint(events.drop_last());
        let name = events.last().key_name;
        if is_letter_name(name) && is_number_name(name) {
            reveal_strlit("Num");
            reveal_strlit("Key");
            assert(!has_prefix(name, "Num"@));
            assert(!has_prefix(name, "Key"@));
            assert(false);
        }
    }
}

/// How often `name` occurs among the key names of `events`.
pub fn count_key_name(events: &Vec<KeyEvent>, name: &str) -> (n: i64)
    requires
        events@.len() <= i64::MAX,
    ensures
        n == occurrences(key_names(views(events@)), name@),
{
    let ghost rows = views(events@);
    let mut n: i64 = 0;
    let mut i: usize = 0;
    while i < events.len()
        invariant
            i <= events@.len(),
            events@.len() <= i64::MAX,
            0 <= n <= i,
            rows == views(events@),
            n == occurrences(key_names(rows.take(i as int)), name@),
        decreases events@.len() - i,
    {
        proof {
            let next = rows.take(i + 1);
            assert(key_names(next).drop_last() =~= key_names(rows.take(i as int)));
            assert(key_names(next).last() == events@[i as int].key_name@);
        }
        if same_text(events[i].key_name.as_str(), name) {
            n += 1;
        }
        i += 1;
    }
    assert(rows.take(i as int) =~= rows);
    n
}

/// How many of `events` belong to `class`.
pub fn count_class(events: &Vec<KeyEvent>, class: KeyClass) -> (n: i64)
    requires
        events@.len() <= i64::MAX,
    ensures
        n == class_count(views(events@), class),
{
    let ghost rows = views(events@);
    let mut n: i64 = 0;
    let mut i: usize = 0;
    while i < events.len()
        invariant
            i <= events@.len(),
            events@.len() <= i64::MAX,
            0 <= n <= i,
            rows == views(events@),
            n == class_count(rows.take(i as int), class),
        decreases events@.len() - i,
    {
        proof {
            let next = rows.take(i + 1);
            assert(next.drop_last() =~= rows.take(i as int));
            assert(next.last() == events@[i as int]@);
        }
        if class.test(&events[i]) {
            n += 1;
        }
        i += 1;
    }
    assert(rows.take(i as int) =~= rows);
    n
}

/// Copies the key names out of `events`.
pub fn key_names_of(events: &Vec<KeyEvent>) -> (names: Vec<String>)
    ensures
        views(names@) == key_names(views(events@)),
{
    let mut names: Vec<String> = Vec::new();
    let mut i: usize = 0;
    while i < events.len()
        invariant
            i <= events@.len(),
            names@.len() == i,
            forall|k: int| 0 <= k < i ==> names@[k]@ == events@[k].key_name@,
        decreases events@.len() - i,
    {
        names.push(events[i].key_name.clone());
        i += 1;
    }
    assert(views(names@) =~= key_names(views(events@)));
    names
}

/// Copies the combo strings out of `combos`.
pub fn combo_texts_of(combos: &Vec<KeyCombo>) -> (names: Vec<String>)
    ensures
        views(names@) == combo_texts(views(combos@)),
{
    let mut names: Vec<String> = Vec::new();
    let mut i: usize = 0;
    while i < combos.len()
        invariant
            i <= combos@.len(),
            names@.len() == i,
            forall|k: int| 0 <= k < i ==> names@[k]@ == combos@[k].combo@,
        decreases combos@.len() - i,
    {
        names.push(combos[i].combo.clone());
        i += 1;
    }
    assert(views(names@) =~= combo_texts(views(combos@)));
    names
}

} // verus!
