//! The event store and its records.
//!
//! The store is held in memory as four append-mostly tables. Each table hands
//! out identifiers in ascending order, starting from one, and never hands one
//! out twice, also after the table was emptied.

pub mod models;
pub mod schema;

use vstd::prelude::*;
use crate::views::views;
use crate::db::models::{
    finalized,
    KeyCombo,
    KeyComboView,
    KeyEvent,
    KeyEventView,
    Session,
    SessionView,
    Timestamp,
    TypingSample,
    TypingSampleView,
};

verus! {

/// Why the store refused a row.
#[derive(Debug, Clone, Copy, PartialEq, Eq, Structural)]
pub enum StoreError {
    /// The table has handed out its last identifier.
    Full,
}

/// The four tables of recorded keyboard activity.
#[derive(Debug)]
pub struct EventStore {
    key_events: Vec<KeyEvent>,
    key_combos: Vec<KeyCombo>,
    sessions: Vec<Session>,
    typing_samples: Vec<TypingSample>,
    last_key_event_id: i64,
    last_key_combo_id: i64,
    last_session_id: i64,
    last_typing_sample_id: i64,
}

/// What a store holds: the rows of each table in insertion order, and the
/// last identifier that each table has handed out.
pub ghost struct EventStoreView {
    pub key_events: Seq<KeyEventView>,
    pub key_combos: Seq<KeyComboView>,
    pub sessions: Seq<SessionView>,
    pub typing_samples: Seq<TypingSampleView>,
    pub last_key_event_id: int,
    pub last_key_combo_id: int,
    pub last_session_id: int,
    pub last_typing_sample_id: int,
}

impl EventStoreView {
    /// The store that holds no row and has handed out no identifier.
    pub open spec fn empty() -> EventStoreView {
        EventStoreView::starting_after(0, 0, 0, 0)
    }

    /// The store that holds no row and has handed out the identifiers up to those given.
    pub open spec fn starting_after(
        last_key_event_id: int,
        last_key_combo_id: int,
        last_session_id: int,
        last_typing_sample_id: int,
    ) -> EventStoreView {
        EventStoreView {
            key_events: Seq::empty(),
            key_combos: Seq::empty(),
            sessions: Seq::empty(),
            typing_samples: Seq::empty(),
            last_key_event_id,
            last_key_combo_id,
            last_session_id,
            last_typing_sample_id,
        }
    }

    /// No table holds a row.
    pub open spec fn is_empty(self) -> bool {
        &&& self.key_events.len() == 0
        &&& self.key_combos.len() == 0
        &&& self.sessions.len() == 0
        &&& self.typing_samples.len() == 0
    }

    /// The store after every row was deleted. The identifiers handed out so far stay used.
    pub open spec fn cleared(self) -> EventStoreView {
        EventStoreView::starting_after(
            self.last_key_event_id,
            self.last_key_combo_id,
            self.last_session_id,
            self.last_typing_sample_id,
        )
    }

    /// The store after `event` was offered to the key events: appended under
    /// the next identifier, or refused by a table that has none left.
    pub open spec fn with_key_event(self, event: KeyEventView) -> EventStoreView {
        if self.last_key_event_id < i64::MAX {
            EventStoreView {
                key_events: self.key_events.push(
                    KeyEventView { id: Some((self.last_key_event_id + 1) as i64), ..event },
                ),
                last_key_event_id: self.last_key_event_id + 1,
                ..self
            }
        } else {
            self
        }
    }

    /// The store after `combo` was offered to the key combos: appended under
    /// the next identifier, or refused by a table that has none left.
    pub open spec fn with_key_combo(self, combo: KeyComboView) -> EventStoreView {
        if self.last_key_combo_id < i64::MAX {
            EventStoreView {
                key_combos: self.key_combos.push(
                    KeyComboView { id: Some((self.last_key_combo_id + 1) as i64), ..combo },
                ),
                last_key_combo_id: self.last_key_combo_id + 1,
                ..self
            }
        } else {
            self
        }
    }

    /// The store after `session` was offered to the sessions: appended under
    /// the next identifier, or refused by a table that has none left.
    pub open spec fn with_session(self, session: SessionView) -> EventStoreView {
        if self.last_session_id < i64::MAX {
            EventStoreView {
                sessions: self.sessions.push(
                    SessionView { id: Some((self.last_session_id + 1) as i64), ..session },
                ),
                last_session_id: self.last_session_id + 1,
                ..self
            }
        } else {
            self
        }
    }

    /// The store after `sample` was offered to the typing samples: appended,
    /// or refused by a table that has no identifier left.
    pub open spec fn with_typing_sample(self, sample: TypingSampleView) -> EventStoreView {
        if self.last_typing_sample_id < i64::MAX {
            EventStoreView {
                typing_samples: self.typing_samples.push(sample),
                last_typing_sample_id: self.last_typing_sample_id + 1,
                ..self
            }
        } else {
            self
        }
    }

    /// The store with `sessions` in place of its sessions.
    pub open spec fn with_sessions(self, sessions: Seq<SessionView>) -> EventStoreView {
        EventStoreView { sessions, ..self }
    }

    /// Every table holds at most as many rows as it has handed out
    /// identifiers, so each row count fits a signed 64-bit integer.
    pub open spec fn countable(self) -> bool {
        &&& self.key_events.len() <= self.last_key_event_id <= i64::MAX
        &&& self.key_combos.len() <= self.last_key_combo_id <= i64::MAX
        &&& self.sessions.len() <= self.last_session_id <= i64::MAX
        &&& self.typing_samples.len() <= self.last_typing_sample_id <= i64::MAX
    }

    /// The stored sessions carry identifiers that were handed out, in ascending order.
    pub open spec fn sessions_identified(self) -> bool {
        &&& forall|i: int|
            0 <= i < self.sessions.len() ==> (#[trigger] self.sessions[i]).id is Some && 1
                <= self.sessions[i].id->0 <= self.last_session_id
        &&& forall|i: int, j: int|
            0 <= i < j < self.sessions.len() ==> (#[trigger] self.sessions[i]).id->0 < (
            #[trigger] self.sessions[j]).id->0
    }

    /// The invariant of a store.
    pub open spec fn wf(self) -> bool {
        self.countable() && self.sessions_identified()
    }
}

impl View for EventStore {
    type V = EventStoreView;

    closed spec fn view(&self) -> EventStoreView {
        EventStoreView {
            key_events: views(self.key_events@),
            key_combos: views(self.key_combos@),
            sessions: views(self.sessions@),
            typing_samples: views(self.typing_samples@),
            last_key_event_id: self.last_key_event_id as int,
            last_key_combo_id: self.last_key_combo_id as int,
            last_session_id: self.last_session_id as int,
            last_typing_sample_id: self.last_typing_sample_id as int,
        }
    }
}

impl EventStore {
    /// The store's invariant.
    pub open spec fn wf(&self) -> bool {
        self@.wf()
    }

    /// A store with four empty tables that has handed out no identifier.
    pub fn new() -> (r: Self)
        ensures
            r.wf(),
            r@ == EventStoreView::empty(),
    {
        let r = EventStore {
            key_events: Vec::new(),
            key_combos: Vec::new(),
            sessions: Vec::new(),
            typing_samples: Vec::new(),
            last_key_event_id: 0,
            last_key_combo_id: 0,
            last_session_id: 0,
            last_typing_sample_id: 0,
        };
        proof {
            r.lemma_view_of_empty_tables();
        }
        r
    }

    /// A store with four empty tables that have already handed out the
    /// identifiers up to those given. There is no such store where one of
    /// them is negative.
    pub fn starting_after(
        last_key_event_id: i64,
        last_key_combo_id: i64,
        last_session_id: i64,
        last_typing_sample_id: i64,
    ) -> (r: Option<Self>)
        ensures
            r is Some <==> last_key_event_id >= 0 && last_key_combo_id >= 0 && last_session_id
                >= 0 && last_typing_sample_id >= 0,
            r is Some ==> r->0.wf() && r->0@ == EventStoreView::starting_after(
                last_key_event_id as int,
                last_key_combo_id as int,
                last_session_id as int,
                last_typing_sample_id as int,
            ),
    {
        if last_key_event_id < 0 || last_key_combo_id < 0 || last_session_id < 0
            || last_typing_sample_id < 0 {
            return None;
        }
        let r = EventStore {
            key_events: Vec::new(),
            key_combos: Vec::new(),
            sessions: Vec::new(),
            typing_samples: Vec::new(),
            last_key_event_id,
            last_key_combo_id,
            last_session_id,
            last_typing_sample_id,
        };
        proof {
            r.lemma_view_of_empty_tables();
        }
        Some(r)
    }

    proof fn lemma_view_of_empty_tables(&self)
        requires
            self.key_events@.len() == 0,
            self.key_combos@.len() == 0,
            self.sessions@.len() == 0,
            self.typing_samples@.len() == 0,
        ensures
            self@ == EventStoreView::starting_after(
                self.last_key_event_id as int,
                self.last_key_combo_id as int,
                self.last_session_id as int,
                self.last_typing_sample_id as int,
            ),
    {
        assert(self@.key_events =~= Seq::empty());
        assert(self@.key_combos =~= Seq::empty());
        assert(self@.sessions =~= Seq::empty());
        assert(self@.typing_samples =~= Seq::empty());
    }

    /// The stored key events, oldest first.
    pub fn key_events(&self) -> (r: &Vec<KeyEvent>)
        ensures
            views(r@) == self@.key_events,
    {
        &self.key_events
    }

    /// The stored key combos, oldest first.
    pub fn key_combos(&self) -> (r: &Vec<KeyCombo>)
        ensures
            views(r@) == self@.key_combos,
    {
        &self.key_combos
    }

    /// The stored sessions, oldest first.
    pub fn sessions(&self) -> (r: &Vec<Session>)
        ensures
            views(r@) == self@.sessions,
    {
        &self.sessions
    }

    /// The stored typing samples, oldest first.
    pub fn typing_samples(&self) -> (r: &Vec<TypingSample>)
        ensures
            views(r@) == self@.typing_samples,
    {
        &self.typing_samples
    }

    /// Appends a copy of `event` under the next identifier and returns that
    /// identifier; whatever identifier `event` carried is replaced.
    pub fn insert_key_event(&mut self, event: &KeyEvent) -> (r: Result<i64, StoreError>)
        requires
            old(self).wf(),
        ensures
            final(self).wf(),
            final(self)@ == old(self)@.with_key_event(event@),
            r is Ok <==> old(self)@.last_key_event_id < i64::MAX,
            r is Ok ==> r->Ok_0 == old(self)@.last_key_event_id + 1,
            r is Err ==> r == Err::<i64, StoreError>(StoreError::Full),
    {
        if self.last_key_event_id == i64::MAX {
            return Err(StoreError::Full);
        }
        let id: i64 = self.last_key_event_id + 1;
        let mut row = event.clone();
        row.id = Some(id);
        self.last_key_event_id = id;
        self.key_events.push(row);
        proof {
            assert(self@.key_events =~= old(self)@.with_key_event(event@).key_events);
        }
        Ok(id)
    }

    /// Appends a copy of `combo` under the next identifier and returns that
    /// identifier; whatever identifier `combo` carried is replaced.
    pub fn insert_key_combo(&mut self, combo: &KeyCombo) -> (r: Result<i64, StoreError>)
        requires
            old(self).wf(),
        ensures
            final(self).wf(),
            final(self)@ == old(self)@.with_key_combo(combo@),
            r is Ok <==> old(self)@.last_key_combo_id < i64::MAX,
            r is Ok ==> r->Ok_0 == old(self)@.last_key_combo_id + 1,
            r is Err ==> r == Err::<i64, StoreError>(StoreError::Full),
    {
        if self.last_key_combo_id == i64::MAX {
            return Err(StoreError::Full);
        }
        let id: i64 = self.last_key_combo_id + 1;
        let mut row = combo.clone();
        row.id = Some(id);
        self.last_key_combo_id = id;
        self.key_combos.push(row);
        proof {
            assert(self@.key_combos =~= old(self)@.with_key_combo(combo@).key_combos);
        }
        Ok(id)
    }

    /// Appends a copy of `session` under the next identifier and returns that
    /// identifier; whatever identifier `session` carried is replaced.
    pub fn insert_session(&mut self, session: &Session) -> (r: Result<i64, StoreError>)
        requires
            old(self).wf(),
        ensures
            final(self).wf(),
            final(self)@ == old(self)@.with_session(session@),
            r is Ok <==> old(self)@.last_session_id < i64::MAX,
            r is Ok ==> r->Ok_0 == old(self)@.last_session_id + 1,
            r is Err ==> r == Err::<i64, StoreError>(StoreError::Full),
    {
        if self.last_session_id == i64::MAX {
            return Err(StoreError::Full);
        }
        let id: i64 = self.last_session_id + 1;
        let mut row = session.clone();
        row.id = Some(id);
        self.last_session_id = id;
        self.sessions.push(row);
        proof {
            assert(self@.sessions =~= old(self)@.with_session(session@).sessions);
        }
        Ok(id)
    }

    /// Appends a copy of `sample` and returns the identifier of its row.
    pub fn insert_typing_sample(&mut self, sample: &TypingSample) -> (r: Result<i64, StoreError>)
        requires
            old(self).wf(),
        ensures
            final(self).wf(),
            final(self)@ == old(self)@.with_typing_sample(sample@),
            r is Ok <==> old(self)@.last_typing_sample_id < i64::MAX,
            r is Ok ==> r->Ok_0 == old(self)@.last_typing_sample_id + 1,
            r is Err ==> r == Err::<i64, StoreError>(StoreError::Full),
    {
        if self.last_typing_sample_id == i64::MAX {
            return Err(StoreError::Full);
        }
        let id: i64 = self.last_typing_sample_id + 1;
        self.last_typing_sample_id = id;
        self.typing_samples.push(sample.clone());
        proof {
            assert(self@.typing_samples =~= old(self)@.with_typing_sample(
                sample@,
            ).typing_samples);
        }
        Ok(id)
    }

    /// Writes an end time and a key count to the session stored under `id`,
    /// and says whether there was such a row.
    pub fn finalize_session(&mut self, id: i64, end_time: &Timestamp, total_keys: i64) -> (updated:
        bool)
        requires
            old(self).wf(),
        ensures
            final(self).wf(),
            final(self)@ == old(self)@.with_sessions(
                finalized(old(self)@.sessions, id, end_time@, total_keys),
            ),
            updated == (exists|i: int|
                0 <= i < old(self)@.sessions.len() && (#[trigger] old(self)@.sessions[i]).id
                    == Some(id)),
    {
        let n: usize = self.sessions.len();
        let ghost before = old(self)@.sessions;
        let ghost after = finalized(before, id, end_time@, total_keys);
        let mut updated = false;
        let mut i: usize = 0;
        while i < n
            invariant
                i <= n,
                n == before.len(),
                before == old(self)@.sessions,
                after == finalized(before, id, end_time@, total_keys),
                self.sessions@.len() == n,
                old(self).wf(),
                self@ == old(self)@.with_sessions(views(self.sessions@)),
                forall|k: int| 0 <= k < i ==> (#[trigger] self.sessions@[k])@ == after[k],
                forall|k: int| i <= k < n ==> (#[trigger] self.sessions@[k])@ == before[k],
                updated == (exists|k: int| 0 <= k < i && (#[trigger] before[k]).id == Some(id)),
            decreases n - i,
        {
            let hit = match self.sessions[i].id {
                Some(k) => k == id,
                None => false,
            };
            proof {
                assert(self.sessions@[i as int]@ == before[i as int]);
            }
            if hit {
                let row = Session {
                    id: Some(id),
                    start_time: self.sessions[i].start_time.clone(),
                    end_time: Some(end_time.clone()),
                    total_keys,
                };
                self.sessions[i] = row;
                updated = true;
            }
            i += 1;
        }
        proof {
            assert(views(self.sessions@) =~= after);
            assert forall|k: int| 0 <= k < after.len() implies (#[trigger] after[k]).id
                == before[k].id by {}
        }
        updated
    }

    /// Empties the four tables. The identifiers handed out so far stay used.
    pub fn clear(&mut self)
        requires
            old(self).wf(),
        ensures
            final(self).wf(),
            final(self)@ == old(self)@.cleared(),
    {
        self.key_events.clear();
        self.key_combos.clear();
        self.sessions.clear();
        self.typing_samples.clear();
        proof {
            self.lemma_view_of_empty_tables();
        }
    }
}

/// An empty in-memory store.
pub fn init_test_db() -> (r: EventStore)
    ensures
        r.wf(),
        r@ == EventStoreView::empty(),
{
    EventStore::new()
}

} // verus!
