//! Running the recording engine over a scripted sequence of key transitions,
//! and what holds of every such run.

use vstd::prelude::*;
use crate::commands::held::is_modifier_name;
use crate::commands::listen::{persisted, ListenState, ListenStateView};
use crate::db::models::{Timestamp, TimestampView};
use crate::db::{EventStore, EventStoreView};
use crate::views::views;

verus! {

/// A key going down or coming up.
#[derive(Debug)]
pub enum KeyTransition {
    Press(String),
    Release(String),
}

/// What a key transition holds.
pub ghost enum KeyTransitionView {
    Press(Seq<char>),
    Release(Seq<char>),
}

impl View for KeyTransition {
    type V = KeyTransitionView;

    open spec fn view(&self) -> KeyTransitionView {
        match self {
            KeyTransition::Press(key) => KeyTransitionView::Press(key@),
            KeyTransition::Release(key) => KeyTransitionView::Release(key@),
        }
    }
}

/// A key transition with the wall-clock time and the monotonic time, in
/// nanoseconds, at which it is delivered.
#[derive(Debug)]
pub struct TimedTransition {
    pub transition: KeyTransition,
    pub at: Timestamp,
    pub now: u128,
}

/// What a timed key transition holds.
pub ghost struct TimedTransitionView {
    pub transition: KeyTransitionView,
    pub at: TimestampView,
    pub now: u128,
}

impl View for TimedTransition {
    type V = TimedTransitionView;

    open spec fn view(&self) -> TimedTransitionView {
        TimedTransitionView { transition: self.transition@, at: self.at@, now: self.now }
    }
}

impl TimedTransitionView {
    /// Whether the transition is the press of `key`.
    pub open spec fn presses(self, key: Seq<char>) -> bool {
        self.transition == KeyTransitionView::Press(key)
    }

    /// Whether the transition is the release of `key`.
    pub open spec fn releases(self, key: Seq<char>) -> bool {
        self.transition == KeyTransitionView::Release(key)
    }
}

/// The state of the engine after one transition.
pub open spec fn state_after(state: ListenStateView, t: TimedTransitionView) -> ListenStateView {
    match t.transition {
        KeyTransitionView::Press(key) => state.after_press(key, t.now),
        KeyTransitionView::Release(key) => state.after_release(key),
    }
}

/// The store after one transition was handled in the state `state`: a press
/// offers its records to the store, a release leaves the store alone.
pub open spec fn store_after(
    state: ListenStateView,
    store: EventStoreView,
    t: TimedTransitionView,
) -> EventStoreView {
    match t.transition {
        KeyTransitionView::Press(key) => persisted(store, state.recorded(key, t.at, t.now)),
        KeyTransitionView::Release(_) => store,
    }
}

/// The state of the engine after the transitions of `script`, one after the other.
pub open spec fn state_after_all(
    state: ListenStateView,
    script: Seq<TimedTransitionView>,
) -> ListenStateView
    decreases script.len(),
{
    if script.len() == 0 {
        state
    } else {
        state_after(state_after_all(state, script.drop_last()), script.last())
    }
}

/// The store after the transitions of `script` were handled, one after the
/// other, by an engine that began in the state `state`.
pub open spec fn store_after_all(
    state: ListenStateView,
    store: EventStoreView,
    script: Seq<TimedTransitionView>,
) -> EventStoreView
    decreases script.len(),
{
    if script.len() == 0 {
        store
    } else {
        store_after(
            state_after_all(state, script.drop_last()),
            store_after_all(state, store, script.drop_last()),
            script.last(),
        )
    }
}

/// How many transitions of `script` are presses.
pub open spec fn presses(script: Seq<TimedTransitionView>) -> nat
    decreases script.len(),
{
    if script.len() == 0 {
        0
    } else {
        presses(script.drop_last()) + if script.last().transition is Press {
            1nat
        } else {
            0nat
        }
    }
}

/// How many transitions of `script` are presses that make a combo: presses
/// of a key that is no modifier, delivered while a modifier is held.
pub open spec fn combo_presses(state: ListenStateView, script: Seq<TimedTransitionView>) -> nat
    decreases script.len(),
{
    if script.len() == 0 {
        0
    } else {
        combo_presses(state, script.drop_last()) + match script.last().transition {
            KeyTransitionView::Press(key) => if state_after_all(
                state,
                script.drop_last(),
            ).makes_combo(key) {
                1nat
            } else {
                0nat
            },
            KeyTransitionView::Release(_) => 0nat,
        }
    }
}

impl ListenState {
    /// Feeds the transitions of `script` to the engine, one after the other,
    /// each at the times that it carries.
    pub fn replay(&mut self, db: &mut EventStore, script: &Vec<TimedTransition>)
        requires
            old(self).wf(),
            old(db).wf(),
            old(self).keys_in_interval + script@.len() <= u32::MAX,
            old(self).total_keys + script@.len() <= u64::MAX,
            old(self).session.total_keys + script@.len() <= i64::MAX,
        ensures
            final(self).wf(),
            final(db).wf(),
            final(self)@ == state_after_all(old(self)@, views(script@)),
            final(db)@ == store_after_all(old(self)@, old(db)@, views(script@)),
    {
        let ghost steps = views(script@);
        let mut i: usize = 0;
        while i < script.len()
            invariant
                i <= script@.len(),
                steps == views(script@),
                self.wf(),
                db.wf(),
                old(self).keys_in_interval + script@.len() <= u32::MAX,
                old(self).total_keys + script@.len() <= u64::MAX,
                old(self).session.total_keys + script@.len() <= i64::MAX,
                self.keys_in_interval <= old(self).keys_in_interval + i,
                self.total_keys <= old(self).total_keys + i,
                self.session.total_keys <= old(self).session.total_keys + i,
                self@ == state_after_all(old(self)@, steps.take(i as int)),
                db@ == store_after_all(old(self)@, old(db)@, steps.take(i as int)),
            decreases script@.len() - i,
        {
            proof {
                assert(steps.take(i + 1).drop_last() =~= steps.take(i as int));
                assert(steps.take(i + 1).last() == script@[i as int]@);
            }
            let t = &script[i];
            match &t.transition {
                KeyTransition::Press(key) => {
                    let _ = self.on_key_press_at(db, key.as_str(), t.at.clone(), t.now);
                },
                KeyTransition::Release(key) => {
                    self.on_key_release(key.as_str());
                },
            }
            i += 1;
        }
        proof {
            assert(steps.take(i as int) =~= steps);
        }
    }
}

/// After any script, every key counter but that of the sampling window has
/// gone up by the number of presses.
pub proof fn lemma_run_counts_presses(state: ListenStateView, script: Seq<TimedTransitionView>)
    requires
        state.total_keys + presses(script) <= u64::MAX,
        state.session.total_keys + presses(script) <= i64::MAX,
    ensures
        state_after_all(state, script).total_keys == state.total_keys + presses(script),
        state_after_all(state, script).session.total_keys == state.session.total_keys + presses(
            script,
        ),
    decreases script.len(),
{
    if script.len() > 0 {
        lemma_run_counts_presses(state, script.drop_last());
    }
}

/// After any script, on a store whose key event table has identifiers left
/// for every press, the table holds one more row for each press, and no
/// more: every press that is delivered is stored, and nothing else is.
pub proof fn lemma_run_stores_every_press(
    state: ListenStateView,
    store: EventStoreView,
    script: Seq<TimedTransitionView>,
)
    requires
        store.last_key_event_id + presses(script) <= i64::MAX,
    ensures
        store_after_all(state, store, script).key_events.len() == store.key_events.len()
            + presses(script),
        store_after_all(state, store, script).last_key_event_id == store.last_key_event_id
            + presses(script),
        store_after_all(state, store, script).sessions == store.sessions,
    decreases script.len(),
{
    if script.len() > 0 {
        lemma_run_stores_every_press(state, store, script.drop_last());
    }
}

/// After any script, on a store whose key combo table has identifiers left
/// for every press, the table holds one more row for each press of a key
/// that is no modifier while a modifier was held, and for no other
/// transition.
pub proof fn lemma_run_stores_combos(
    state: ListenStateView,
    store: EventStoreView,
    script: Seq<TimedTransitionView>,
)
    requires
        store.last_key_combo_id + presses(script) <= i64::MAX,
    ensures
        store_after_all(state, store, script).key_combos.len() == store.key_combos.len()
            + combo_presses(state, script),
        store_after_all(state, store, script).last_key_combo_id == store.last_key_combo_id
            + combo_presses(state, script),
        combo_presses(state, script) <= presses(script),
    decreases script.len(),
{
    if script.len() > 0 {
        lemma_run_stores_combos(state, store, script.drop_last());
    }
}

/// A press makes a combo exactly when the key is no modifier and the held
/// set is not empty at that instant; so a press that finds every modifier
/// released makes none.
pub proof fn lemma_combo_on_press(
    state: ListenStateView,
    store: EventStoreView,
    key: Seq<char>,
    at: TimestampView,
    now: u128,
)
    requires
        store.last_key_combo_id < i64::MAX,
    ensures
        state.recorded(key, at, now).combo is Some <==> !is_modifier_name(key)
            && state.pressed_modifiers != Set::<Seq<char>>::empty(),
        persisted(store, state.recorded(key, at, now)).key_combos.len() == store.key_combos.len()
            + if !is_modifier_name(key) && state.pressed_modifiers != Set::<Seq<char>>::empty() {
            1int
        } else {
            0int
        },
{
}

/// A modifier whose last transition in a script is a press is held after the script.
pub proof fn lemma_held_from_press_on(
    state: ListenStateView,
    script: Seq<TimedTransitionView>,
    i: int,
    key: Seq<char>,
)
    requires
        0 <= i < script.len(),
        is_modifier_name(key),
        script[i].presses(key),
        forall|j: int| i < j < script.len() ==> !(#[trigger] script[j]).releases(key),
    ensures
        state_after_all(state, script).pressed_modifiers.contains(key),
    decreases script.len(),
{
    if i < script.len() - 1 {
        let rest = script.drop_last();
        assert forall|j: int| i < j < rest.len() implies !(#[trigger] rest[j]).releases(key) by {
            assert(rest[j] == script[j]);
        }
        lemma_held_from_press_on(state, rest, i, key);
        assert(!script[script.len() - 1].releases(key));
    }
}

/// A key whose last transition in a script is a release is not held after the script.
pub proof fn lemma_not_held_from_release_on(
    state: ListenStateView,
    script: Seq<TimedTransitionView>,
    i: int,
    key: Seq<char>,
)
    requires
        0 <= i < script.len(),
        is_modifier_name(key),
        script[i].releases(key),
        forall|j: int| i < j < script.len() ==> !(#[trigger] script[j]).presses(key),
    ensures
        !state_after_all(state, script).pressed_modifiers.contains(key),
    decreases script.len(),
{
    if i < script.len() - 1 {
        let rest = script.drop_last();
        assert forall|j: int| i < j < rest.len() implies !(#[trigger] rest[j]).presses(key) by {
            assert(rest[j] == script[j]);
        }
        lemma_not_held_from_release_on(state, rest, i, key);
        assert(!script[script.len() - 1].presses(key));
    }
}

/// A key that is no modifier and was not held before a script is not held after it.
pub proof fn lemma_only_modifiers_join(
    state: ListenStateView,
    script: Seq<TimedTransitionView>,
    key: Seq<char>,
)
    requires
        !is_modifier_name(key),
        !state.pressed_modifiers.contains(key),
    ensures
        !state_after_all(state, script).pressed_modifiers.contains(key),
    decreases script.len(),
{
    if script.len() > 0 {
        lemma_only_modifiers_join(state, script.drop_last(), key);
    }
}

} // verus!
