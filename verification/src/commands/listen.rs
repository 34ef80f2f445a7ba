//! The recording engine: the state that turns key presses and releases into
//! records for the event store.

use vstd::prelude::*;
use crate::clock::MonotonicClock;
use crate::commands::held::{combo_text, is_modifier, is_modifier_name, HeldModifiers};
use crate::db::models::{
    sessions_after_end,
    KeyCombo,
    KeyComboView,
    KeyEvent,
    KeyEventView,
    Session,
    SessionView,
    Timestamp,
    TimestampView,
    TypingSample,
    TypingSampleView,
};
use crate::db::{EventStore, EventStoreView, StoreError};

verus! {

/// The length of a sampling window in nanoseconds: ten seconds.
pub const SAMPLE_WINDOW_NANOS: u128 = 10_000_000_000;

/// Thousandths of a character per minute for one key per nanosecond.
pub const MILLI_RATE_PER_KEY_NANO: u128 = 60_000_000_000_000;

/// The records that one key press gives rise to.
#[derive(Debug)]
pub struct Recorded {
    /// The press itself.
    pub event: KeyEvent,
    /// The combo, where the key is no modifier and modifiers were held.
    pub combo: Option<KeyCombo>,
    /// The typing rate of the window that this press closed, where it closed one.
    pub sample: Option<TypingSample>,
}

/// What the records of a key press hold.
pub ghost struct RecordedView {
    pub event: KeyEventView,
    pub combo: Option<KeyComboView>,
    pub sample: Option<TypingSampleView>,
}

impl View for Recorded {
    type V = RecordedView;

    open spec fn view(&self) -> RecordedView {
        RecordedView {
            event: self.event@,
            combo: match self.combo {
                Some(combo) => Some(combo@),
                None => None,
            },
            sample: match self.sample {
                Some(sample) => Some(sample@),
                None => None,
            },
        }
    }
}

/// The typing rate, in thousandths of a character per minute, of `keys`
/// presses in `elapsed_nanos` nanoseconds, rounded down.
pub open spec fn milli_rate(keys: int, elapsed_nanos: int) -> int {
    keys * MILLI_RATE_PER_KEY_NANO as int / elapsed_nanos
}

/// The nanoseconds from `start` to `now` on the monotonic clock; zero where `now` is not later.
pub open spec fn nanos_between(start: u128, now: u128) -> int {
    if now >= start {
        now - start
    } else {
        0
    }
}

/// The held set after the press of `key`: a modifier joins it.
pub open spec fn held_after_press(held: Set<Seq<char>>, key: Seq<char>) -> Set<Seq<char>> {
    if is_modifier_name(key) {
        held.insert(key)
    } else {
        held
    }
}

/// The held set after the release of `key`: a modifier leaves it.
pub open spec fn held_after_release(held: Set<Seq<char>>, key: Seq<char>) -> Set<Seq<char>> {
    if is_modifier_name(key) {
        held.remove(key)
    } else {
        held
    }
}

/// The state of a recording run.
#[derive(Debug)]
pub struct ListenState {
    /// The session of this run.
    pub session: Session,
    /// The modifiers that are held down.
    pub pressed_modifiers: HeldModifiers,
    /// The monotonic time of the last press, in nanoseconds.
    pub last_key_time: Option<u128>,
    /// The presses since the current sampling window began.
    pub keys_in_interval: u32,
    /// The monotonic time at which the current sampling window began, in nanoseconds.
    pub interval_start: u128,
    /// The presses of this run.
    pub total_keys: u64,
}

/// What the state of a recording run holds.
pub ghost struct ListenStateView {
    pub session: SessionView,
    pub pressed_modifiers: Set<Seq<char>>,
    pub last_key_time: Option<u128>,
    pub keys_in_interval: u32,
    pub interval_start: u128,
    pub total_keys: u64,
}

impl View for ListenState {
    type V = ListenStateView;

    open spec fn view(&self) -> ListenStateView {
        ListenStateView {
            session: self.session@,
            pressed_modifiers: self.pressed_modifiers@,
            last_key_time: self.last_key_time,
            keys_in_interval: self.keys_in_interval,
            interval_start: self.interval_start,
            total_keys: self.total_keys,
        }
    }
}

impl ListenStateView {
    /// The state of a run whose session began at `start_time`, with the
    /// first sampling window beginning at monotonic time `now`.
    pub open spec fn starting_at(start_time: TimestampView, now: u128) -> ListenStateView {
        ListenStateView {
            session: SessionView::starting_at(start_time),
            pressed_modifiers: Set::empty(),
            last_key_time: None,
            keys_in_interval: 0,
            interval_start: now,
            total_keys: 0,
        }
    }

    /// The three key counters can each count one more press.
    pub open spec fn has_room(self) -> bool {
        &&& self.keys_in_interval < u32::MAX
        &&& self.total_keys < u64::MAX
        &&& self.session.total_keys < i64::MAX
    }

    /// Whether a press at monotonic time `now` closes the sampling window:
    /// ten seconds or more have passed since the window began.
    pub open spec fn closes_window(self, now: u128) -> bool {
        nanos_between(self.interval_start, now) >= SAMPLE_WINDOW_NANOS
    }

    /// Whether a press of `key` makes a combo: the key is no modifier, and a modifier is held.
    pub open spec fn makes_combo(self, key: Seq<char>) -> bool {
        !is_modifier_name(key) && self.pressed_modifiers != Set::<Seq<char>>::empty()
    }

    /// The records that a press of `key` gives rise to, at wall-clock time
    /// `at` and monotonic time `now`: the event in every case; a combo where
    /// the press makes one; a sample where the press closes the sampling
    /// window, with the rate of the presses of the window, this one included.
    pub open spec fn recorded(self, key: Seq<char>, at: TimestampView, now: u128) -> RecordedView {
        RecordedView {
            event: KeyEventView::at(key, key, is_modifier_name(key), at),
            combo: if self.makes_combo(key) {
                Some(KeyComboView::at(combo_text(self.pressed_modifiers, key), at))
            } else {
                None
            },
            sample: if self.closes_window(now) {
                Some(
                    TypingSampleView {
                        milli_chars_per_minute: milli_rate(
                            self.keys_in_interval + 1,
                            nanos_between(self.interval_start, now),
                        ) as u64,
                        timestamp: at,
                    },
                )
            } else {
                None
            },
        }
    }

    /// The state after one press was counted at monotonic time `now`: every
    /// counter one higher, but the window counter back at zero, with the
    /// window beginning at `now`, where the press closes the sampling window.
    pub open spec fn counted(self, now: u128) -> ListenStateView {
        ListenStateView {
            session: self.session.with_one_more_key(),
            last_key_time: Some(now),
            keys_in_interval: if self.closes_window(now) {
                0
            } else {
                (self.keys_in_interval + 1) as u32
            },
            interval_start: if self.closes_window(now) {
                now
            } else {
                self.interval_start
            },
            total_keys: (self.total_keys + 1) as u64,
            ..self
        }
    }

    /// The state after the press of `key` at monotonic time `now`: the press
    /// is counted, and a modifier joins the held set.
    pub open spec fn after_press(self, key: Seq<char>, now: u128) -> ListenStateView {
        ListenStateView {
            pressed_modifiers: held_after_press(self.pressed_modifiers, key),
            ..self.counted(now)
        }
    }

    /// The state after the release of `key`: a modifier leaves the held set.
    pub open spec fn after_release(self, key: Seq<char>) -> ListenStateView {
        ListenStateView {
            pressed_modifiers: held_after_release(self.pressed_modifiers, key),
            ..self
        }
    }
}

/// The store after the records of one press were offered to it, each to its
/// own table. A table that refuses its record leaves the others unaffected.
pub open spec fn persisted(store: EventStoreView, recorded: RecordedView) -> EventStoreView {
    let with_event = store.with_key_event(recorded.event);
    let with_combo = match recorded.combo {
        Some(combo) => with_event.with_key_combo(combo),
        None => with_event,
    };
    match recorded.sample {
        Some(sample) => with_combo.with_typing_sample(sample),
        None => with_combo,
    }
}

/// Offers the records of one press to the store, each to its own table. A
/// table that refuses its record does not stop the others.
pub fn persist(db: &mut EventStore, recorded: &Recorded)
    requires
        old(db).wf(),
    ensures
        final(db).wf(),
        final(db)@ == persisted(old(db)@, recorded@),
{
    let _ = recorded.event.save(db);
    if let Some(combo) = &recorded.combo {
        let _ = combo.save(db);
    }
    if let Some(sample) = &recorded.sample {
        let _ = sample.save(db);
    }
}

/// The rate of at most `u32::MAX` presses in ten seconds or more fits 64 bits.
pub proof fn lemma_rate_fits(keys: int, elapsed_nanos: int)
    requires
        0 <= keys <= u32::MAX,
        elapsed_nanos >= SAMPLE_WINDOW_NANOS,
    ensures
        0 <= milli_rate(keys, elapsed_nanos) <= u64::MAX,
{
    let scaled = keys * MILLI_RATE_PER_KEY_NANO as int;
    assert(0 <= scaled <= 0xffff_ffff * 60_000_000_000_000) by (nonlinear_arith)
        requires
            0 <= keys <= 0xffff_ffff,
            scaled == keys * 60_000_000_000_000,
    ;
    assert(0 <= scaled / elapsed_nanos <= scaled) by (nonlinear_arith)
        requires
            0 <= scaled,
            elapsed_nanos >= 1,
    ;
    assert(scaled / elapsed_nanos <= 0xffff_ffff * 6_000) by (nonlinear_arith)
        requires
            0 <= scaled <= 0xffff_ffff * 60_000_000_000_000,
            elapsed_nanos >= 10_000_000_000,
    ;
}

impl ListenState {
    /// The set of held modifiers is well formed.
    pub open spec fn wf(&self) -> bool {
        self.pressed_modifiers.wf()
    }

    /// Whether the three key counters can each count one more press.
    pub fn has_room(&self) -> (r: bool)
        ensures
            r == self@.has_room(),
    {
        self.keys_in_interval < u32::MAX && self.total_keys < u64::MAX && self.session.total_keys
            < i64::MAX
    }

    /// The state of a run whose session began at `start_time`, with the
    /// first sampling window beginning at monotonic time `now`.
    pub fn starting_at(start_time: Timestamp, now: u128) -> (r: Self)
        ensures
            r.wf(),
            r@ == ListenStateView::starting_at(start_time@, now),
    {
        ListenState {
            session: Session::starting_at(start_time),
            pressed_modifiers: HeldModifiers::new(),
            last_key_time: None,
            keys_in_interval: 0,
            interval_start: now,
            total_keys: 0,
        }
    }

    /// The state of a run that begins now on both clocks.
    pub fn new(clock: &MonotonicClock) -> (r: Self)
        ensures
            r.wf(),
            r@ == ListenStateView::starting_at(r@.session.start_time, r@.interval_start),
            r@.session.start_time.in_calendar(),
    {
        ListenState::starting_at(Timestamp::now(), clock.nanos())
    }

    /// Takes a modifier into the held set.
    pub fn modifier_pressed(&mut self, key: &str)
        requires
            old(self).wf(),
        ensures
            final(self).wf(),
            final(self)@ == (ListenStateView {
                pressed_modifiers: old(self)@.pressed_modifiers.insert(key@),
                ..old(self)@
            }),
    {
        self.pressed_modifiers.press(key);
    }

    /// Takes a modifier out of the held set.
    pub fn modifier_released(&mut self, key: &str)
        requires
            old(self).wf(),
        ensures
            final(self).wf(),
            final(self)@ == (ListenStateView {
                pressed_modifiers: old(self)@.pressed_modifiers.remove(key@),
                ..old(self)@
            }),
    {
        self.pressed_modifiers.release(key);
    }

    /// Records a press of `key` at wall-clock time `at` and monotonic time
    /// `now`: counts it, and returns the event, the combo where the key is no
    /// modifier and modifiers are held, and a typing sample where ten seconds
    /// or more have passed since the sampling window began.
    pub fn record_key_event_at(&mut self, key: &str, at: Timestamp, now: u128) -> (out: Recorded)
        requires
            old(self).wf(),
            old(self)@.has_room(),
        ensures
            final(self).wf(),
            out@ == old(self)@.recorded(key@, at@, now),
            final(self)@ == old(self)@.counted(now),
    {
        let is_mod = is_modifier(key);
        let combo = if !is_mod && !self.pressed_modifiers.is_empty() {
            Some(KeyCombo::at(self.pressed_modifiers.combo_with(key), at.clone()))
        } else {
            None
        };
        self.keys_in_interval += 1;
        self.total_keys += 1;
        self.session.increment_keys();
        let elapsed: u128 = if now >= self.interval_start {
            now - self.interval_start
        } else {
            0
        };
        let sample = if elapsed >= SAMPLE_WINDOW_NANOS {
            let scaled: u128 = self.keys_in_interval as u128 * MILLI_RATE_PER_KEY_NANO;
            let rate: u128 = scaled / elapsed;
            proof {
                lemma_rate_fits(self.keys_in_interval as int, elapsed as int);
            }
            self.keys_in_interval = 0;
            self.interval_start = now;
            Some(TypingSample::at(rate as u64, at.clone()))
        } else {
            None
        };
        self.last_key_time = Some(now);
        let event = KeyEvent::at(key.to_owned(), key.to_owned(), is_mod, at);
        Recorded { event, combo, sample }
    }

    /// Records a press of `key` now and offers its records to the store.
    /// The times are whatever the two clocks gave; the rest is as in
    /// [`ListenState::record_key_event_at`] and [`persist`].
    pub fn record_key_event(&mut self, db: &mut EventStore, clock: &MonotonicClock, key: &str)
        requires
            old(self).wf(),
            old(self)@.has_room(),
            old(db).wf(),
        ensures
            final(self).wf(),
            final(db).wf(),
            exists|at: TimestampView, now: u128|
                #![auto]
                at.in_calendar() && final(self)@ == old(self)@.counted(now) && final(db)@
                    == persisted(old(db)@, old(self)@.recorded(key@, at, now)),
    {
        let at = Timestamp::now();
        let now = clock.nanos();
        let ghost at_view = at@;
        let out = self.record_key_event_at(key, at, now);
        persist(db, &out);
        proof {
            assert(at_view.in_calendar() && self@ == old(self)@.counted(now) && db@ == persisted(
                old(db)@,
                old(self)@.recorded(key@, at_view, now),
            ));
        }
    }

    /// Handles the press of `key` at wall-clock time `at` and monotonic time
    /// `now`: a modifier joins the held set; the press is recorded and its
    /// records are offered to the store.
    pub fn on_key_press_at(&mut self, db: &mut EventStore, key: &str, at: Timestamp, now: u128) -> (out:
        Recorded)
        requires
            old(self).wf(),
            old(self)@.has_room(),
            old(db).wf(),
        ensures
            final(self).wf(),
            final(db).wf(),
            out@ == old(self)@.recorded(key@, at@, now),
            final(self)@ == old(self)@.after_press(key@, now),
            final(db)@ == persisted(old(db)@, out@),
    {
        let out = self.record_key_event_at(key, at, now);
        if is_modifier(key) {
            self.modifier_pressed(key);
        }
        persist(db, &out);
        out
    }

    /// Handles the press of `key` now. The times are whatever the two clocks
    /// gave; the rest is as in [`ListenState::on_key_press_at`].
    pub fn on_key_press(&mut self, db: &mut EventStore, clock: &MonotonicClock, key: &str)
        requires
            old(self).wf(),
            old(self)@.has_room(),
            old(db).wf(),
        ensures
            final(self).wf(),
            final(db).wf(),
            exists|at: TimestampView, now: u128|
                #![auto]
                at.in_calendar() && final(self)@ == old(self)@.after_press(key@, now)
                    && final(db)@ == persisted(old(db)@, old(self)@.recorded(key@, at, now)),
    {
        let at = Timestamp::now();
        let now = clock.nanos();
        let ghost at_view = at@;
        let _ = self.on_key_press_at(db, key, at, now);
        proof {
            assert(at_view.in_calendar() && self@ == old(self)@.after_press(key@, now) && db@
                == persisted(old(db)@, old(self)@.recorded(key@, at_view, now)));
        }
    }

    /// Handles the release of `key`: a modifier leaves the held set, and
    /// nothing else changes.
    pub fn on_key_release(&mut self, key: &str)
        requires
            old(self).wf(),
        ensures
            final(self).wf(),
            final(self)@ == old(self)@.after_release(key@),
    {
        if is_modifier(key) {
            self.modifier_released(key);
        }
    }

    /// Stores the session of this run as an open row and keeps its identifier.
    pub fn start_session(&mut self, db: &mut EventStore) -> (r: Result<i64, StoreError>)
        requires
            old(db).wf(),
        ensures
            final(db).wf(),
            final(db)@ == old(db)@.with_session(old(self)@.session.reopened()),
            r is Ok <==> old(db)@.last_session_id < i64::MAX,
            r is Ok ==> r->Ok_0 == old(db)@.last_session_id + 1 && final(self)@ == (
            ListenStateView {
                session: SessionView { id: Some(r->Ok_0), ..old(self)@.session },
                ..old(self)@
            }),
            r is Err ==> r == Err::<i64, StoreError>(StoreError::Full) && final(self)@
                == old(self)@,
            old(self).wf() ==> final(self).wf(),
    {
        self.session.start(db)
    }

    /// Closes the session of this run at `now` and writes its end time and
    /// key count to its stored row.
    pub fn end_session_at(&mut self, db: &mut EventStore, now: Timestamp)
        requires
            old(db).wf(),
        ensures
            final(db).wf(),
            final(self)@ == (ListenStateView {
                session: old(self)@.session.closed_at(now@),
                ..old(self)@
            }),
            final(db)@ == old(db)@.with_sessions(
                sessions_after_end(old(db)@.sessions, old(self)@.session, now@),
            ),
            old(self).wf() ==> final(self).wf(),
    {
        self.session.end_at(db, now);
    }

    /// Closes the session of this run now. The end time is whatever the
    /// clock gave; the rest is as in [`ListenState::end_session_at`].
    pub fn end_session(&mut self, db: &mut EventStore)
        requires
            old(db).wf(),
        ensures
            final(db).wf(),
            final(self)@.session.end_time is Some,
            final(self)@.session.end_time->0.in_calendar(),
            final(self)@ == (ListenStateView {
                session: old(self)@.session.closed_at(final(self)@.session.end_time->0),
                ..old(self)@
            }),
            final(db)@ == old(db)@.with_sessions(
                sessions_after_end(
                    old(db)@.sessions,
                    old(self)@.session,
                    final(self)@.session.end_time->0,
                ),
            ),
            old(self).wf() ==> final(self).wf(),
    {
        self.session.end(db);
    }
}

} // verus!
