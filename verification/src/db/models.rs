//! The four kinds of record that the event store holds.
//!
//! Each record has a view that holds its text as character sequences; the
//! contracts of the store and of the statistics speak of these views.

use vstd::prelude::*;
use crate::db::{EventStore, StoreError};

verus! {

/// A local wall-clock instant, held as the plain values that records and statistics read from it.
#[derive(Debug)]
pub struct Timestamp {
    /// The instant as RFC 3339 text, the form in which it is stored.
    pub rfc3339: String,
    /// Milliseconds since the Unix epoch.
    pub unix_millis: i64,
    /// Hour of the local day, 0 to 23.
    pub hour: u32,
    /// Day of the local week, 0 for Monday to 6 for Sunday.
    pub day_of_week: u32,
}

/// What a timestamp holds.
pub ghost struct TimestampView {
    pub rfc3339: Seq<char>,
    pub unix_millis: i64,
    pub hour: u32,
    pub day_of_week: u32,
}

impl TimestampView {
    /// The hour and the weekday lie in their calendar ranges.
    pub open spec fn in_calendar(self) -> bool {
        self.hour < 24 && self.day_of_week < 7
    }
}

impl View for Timestamp {
    type V = TimestampView;

    open spec fn view(&self) -> TimestampView {
        TimestampView {
            rfc3339: self.rfc3339@,
            unix_millis: self.unix_millis,
            hour: self.hour,
            day_of_week: self.day_of_week,
        }
    }
}

impl Timestamp {
    /// Reads the local clock through `chrono::Local::now` and takes from the
    /// `DateTime` its `to_rfc3339`, `timestamp_millis`, `hour` and
    /// `weekday().num_days_from_monday()`. Which instant comes back is not
    /// stated; chrono documents the hour as 0 to 23 and the weekday number as
    /// 0 to 6, and that much is claimed here.
    #[verifier::external_body]
    pub(crate) fn now() -> (t: Timestamp)
        ensures
            t@.in_calendar(),
    {
        let now = chrono::Local::now();
        Timestamp {
            rfc3339: now.to_rfc3339(),
            unix_millis: now.timestamp_millis(),
            hour: chrono::Timelike::hour(&now),
            day_of_week: chrono::Datelike::weekday(&now).num_days_from_monday(),
        }
    }
}

impl Clone for Timestamp {
    fn clone(&self) -> (r: Self)
        ensures
            r@ == self@,
    {
        Timestamp {
            rfc3339: self.rfc3339.clone(),
            unix_millis: self.unix_millis,
            hour: self.hour,
            day_of_week: self.day_of_week,
        }
    }
}

/// One key press.
#[derive(Debug)]
pub struct KeyEvent {
    /// The identifier that the store assigned, absent until the event is stored.
    pub id: Option<i64>,
    pub key_code: String,
    pub key_name: String,
    pub is_modifier: bool,
    pub timestamp: Timestamp,
}

/// What a key event holds.
pub ghost struct KeyEventView {
    pub id: Option<i64>,
    pub key_code: Seq<char>,
    pub key_name: Seq<char>,
    pub is_modifier: bool,
    pub timestamp: TimestampView,
}

impl View for KeyEvent {
    type V = KeyEventView;

    open spec fn view(&self) -> KeyEventView {
        KeyEventView {
            id: self.id,
            key_code: self.key_code@,
            key_name: self.key_name@,
            is_modifier: self.is_modifier,
            timestamp: self.timestamp@,
        }
    }
}

impl Clone for KeyEvent {
    fn clone(&self) -> (r: Self)
        ensures
            r@ == self@,
    {
        KeyEvent {
            id: self.id,
            key_code: self.key_code.clone(),
            key_name: self.key_name.clone(),
            is_modifier: self.is_modifier,
            timestamp: self.timestamp.clone(),
        }
    }
}

impl KeyEventView {
    /// The unstored event for a key pressed at `timestamp`.
    pub open spec fn at(
        key_code: Seq<char>,
        key_name: Seq<char>,
        is_modifier: bool,
        timestamp: TimestampView,
    ) -> KeyEventView {
        KeyEventView { id: None, key_code, key_name, is_modifier, timestamp }
    }
}

impl KeyEvent {
    /// An unstored event for a key pressed at `timestamp`.
    pub fn at(key_code: String, key_name: String, is_modifier: bool, timestamp: Timestamp) -> (r:
        Self)
        ensures
            r@ == KeyEventView::at(key_code@, key_name@, is_modifier, timestamp@),
    {
        KeyEvent { id: None, key_code, key_name, is_modifier, timestamp }
    }

    /// An unstored event for a key pressed now.
    pub fn new(key_code: String, key_name: String, is_modifier: bool) -> (r: Self)
        ensures
            r@ == KeyEventView::at(key_code@, key_name@, is_modifier, r@.timestamp),
            r@.timestamp.in_calendar(),
    {
        KeyEvent::at(key_code, key_name, is_modifier, Timestamp::now())
    }

    /// Appends the event to the store's key events under a fresh identifier.
    /// Fails, leaving the store as it was, exactly when the table has used up
    /// its identifiers.
    pub fn save(&self, db: &mut EventStore) -> (r: Result<(), StoreError>)
        requires
            old(db).wf(),
        ensures
            final(db).wf(),
            final(db)@ == old(db)@.with_key_event(self@),
            r is Ok <==> old(db)@.last_key_event_id < i64::MAX,
            r is Err ==> r == Err::<(), StoreError>(StoreError::Full),
    {
        match db.insert_key_event(self) {
            Ok(_) => Ok(()),
            Err(e) => Err(e),
        }
    }
}

/// A non-modifier key pressed while modifiers were held.
#[derive(Debug)]
pub struct KeyCombo {
    /// The identifier that the store assigned, absent until the combo is stored.
    pub id: Option<i64>,
    /// The held modifiers in name order and then the key, joined by `+`.
    pub combo: String,
    pub timestamp: Timestamp,
}

/// What a key combo holds.
pub ghost struct KeyComboView {
    pub id: Option<i64>,
    pub combo: Seq<char>,
    pub timestamp: TimestampView,
}

impl View for KeyCombo {
    type V = KeyComboView;

    open spec fn view(&self) -> KeyComboView {
        KeyComboView { id: self.id, combo: self.combo@, timestamp: self.timestamp@ }
    }
}

impl Clone for KeyCombo {
    fn clone(&self) -> (r: Self)
        ensures
            r@ == self@,
    {
        KeyCombo { id: self.id, combo: self.combo.clone(), timestamp: self.timestamp.clone() }
    }
}

impl KeyComboView {
    /// The unstored combo pressed at `timestamp`.
    pub open spec fn at(combo: Seq<char>, timestamp: TimestampView) -> KeyComboView {
        KeyComboView { id: None, combo, timestamp }
    }
}

impl KeyCombo {
    /// An unstored combo pressed at `timestamp`.
    pub fn at(combo: String, timestamp: Timestamp) -> (r: Self)
        ensures
            r@ == KeyComboView::at(combo@, timestamp@),
    {
        KeyCombo { id: None, combo, timestamp }
    }

    /// An unstored combo pressed now.
    pub fn new(combo: String) -> (r: Self)
        ensures
            r@ == KeyComboView::at(combo@, r@.timestamp),
            r@.timestamp.in_calendar(),
    {
        KeyCombo::at(combo, Timestamp::now())
    }

    /// Appends the combo to the store's key combos under a fresh identifier.
    /// Fails, leaving the store as it was, exactly when the table has used up
    /// its identifiers.
    pub fn save(&self, db: &mut EventStore) -> (r: Result<(), StoreError>)
        requires
            old(db).wf(),
        ensures
            final(db).wf(),
            final(db)@ == old(db)@.with_key_combo(self@),
            r is Ok <==> old(db)@.last_key_combo_id < i64::MAX,
            r is Err ==> r == Err::<(), StoreError>(StoreError::Full),
    {
        match db.insert_key_combo(self) {
            Ok(_) => Ok(()),
            Err(e) => Err(e),
        }
    }
}

/// One recording run.
#[derive(Debug)]
pub struct Session {
    /// The identifier that the store assigned, absent until the session is started.
    pub id: Option<i64>,
    pub start_time: Timestamp,
    /// Absent while the session is open.
    pub end_time: Option<Timestamp>,
    pub total_keys: i64,
}

/// What a session holds.
pub ghost struct SessionView {
    pub id: Option<i64>,
    pub start_time: TimestampView,
    pub end_time: Option<TimestampView>,
    pub total_keys: i64,
}

impl View for Session {
    type V = SessionView;

    open spec fn view(&self) -> SessionView {
        SessionView {
            id: self.id,
            start_time: self.start_time@,
            end_time: match self.end_time {
                Some(t) => Some(t@),
                None => None,
            },
            total_keys: self.total_keys,
        }
    }
}

impl Clone for Session {
    fn clone(&self) -> (r: Self)
        ensures
            r@ == self@,
    {
        let end_time = match &self.end_time {
            Some(t) => Some(t.clone()),
            None => None,
        };
        Session {
            id: self.id,
            start_time: self.start_time.clone(),
            end_time,
            total_keys: self.total_keys,
        }
    }
}

impl SessionView {
    /// The unstored open session that began at `start_time`, with no keys counted.
    pub open spec fn starting_at(start_time: TimestampView) -> SessionView {
        SessionView { id: None, start_time, end_time: None, total_keys: 0 }
    }

    /// The session, open again.
    pub open spec fn reopened(self) -> SessionView {
        SessionView { end_time: None, ..self }
    }

    /// The session, closed at `end_time`.
    pub open spec fn closed_at(self, end_time: TimestampView) -> SessionView {
        SessionView { end_time: Some(end_time), ..self }
    }

    /// The session with one more key counted.
    pub open spec fn with_one_more_key(self) -> SessionView {
        SessionView { total_keys: (self.total_keys + 1) as i64, ..self }
    }

    /// The time in milliseconds that the session lasted; zero while it is open.
    pub open spec fn millis(self) -> int {
        match self.end_time {
            Some(end) => end.unix_millis - self.start_time.unix_millis,
            None => 0,
        }
    }
}

/// The rows of a sessions table after the row under `id` received its end time and key count.
pub open spec fn finalized(
    rows: Seq<SessionView>,
    id: i64,
    end_time: TimestampView,
    total_keys: i64,
) -> Seq<SessionView> {
    Seq::new(
        rows.len(),
        |i: int|
            if rows[i].id == Some(id) {
                SessionView { end_time: Some(end_time), total_keys, ..rows[i] }
            } else {
                rows[i]
            },
    )
}

/// The sessions of a store after `session` was closed at `end_time`: the row
/// under the session's identifier has received the end time and the
/// session's key count; a session that was never started has no row.
pub open spec fn sessions_after_end(
    rows: Seq<SessionView>,
    session: SessionView,
    end_time: TimestampView,
) -> Seq<SessionView> {
    match session.id {
        Some(id) => finalized(rows, id, end_time, session.total_keys),
        None => rows,
    }
}

/// Writing the same end time and key count to a session a second time changes nothing.
pub proof fn lemma_finalized_again(
    rows: Seq<SessionView>,
    id: i64,
    end_time: TimestampView,
    total_keys: i64,
)
    ensures
        finalized(finalized(rows, id, end_time, total_keys), id, end_time, total_keys)
            == finalized(rows, id, end_time, total_keys),
{
    assert(finalized(finalized(rows, id, end_time, total_keys), id, end_time, total_keys)
        =~= finalized(rows, id, end_time, total_keys));
}

/// Closing a session a second time at the same time, with no key counted in
/// between, leaves the stored sessions as the first closing left them.
pub proof fn lemma_end_again(rows: Seq<SessionView>, session: SessionView, end_time: TimestampView)
    ensures
        sessions_after_end(
            sessions_after_end(rows, session, end_time),
            session.closed_at(end_time),
            end_time,
        ) == sessions_after_end(rows, session, end_time),
{
    match session.id {
        Some(id) => {
            lemma_finalized_again(rows, id, end_time, session.total_keys);
        },
        None => {},
    }
}

/// Writing an end time and a key count to a session leaves every other session as it was.
pub proof fn lemma_finalized_others(
    rows: Seq<SessionView>,
    id: i64,
    end_time: TimestampView,
    total_keys: i64,
    i: int,
)
    requires
        0 <= i < rows.len(),
        rows[i].id != Some(id),
    ensures
        finalized(rows, id, end_time, total_keys)[i] == rows[i],
{
}

impl Session {
    /// An unstored open session that began at `start_time`, with no keys counted.
    pub fn starting_at(start_time: Timestamp) -> (r: Self)
        ensures
            r@ == SessionView::starting_at(start_time@),
    {
        Session { id: None, start_time, end_time: None, total_keys: 0 }
    }

    /// An unstored open session that begins now, with no keys counted.
    pub fn new() -> (r: Self)
        ensures
            r@ == SessionView::starting_at(r@.start_time),
            r@.start_time.in_calendar(),
    {
        Session::starting_at(Timestamp::now())
    }

    /// Stores the session as an open row with its start time and key count,
    /// and keeps the identifier that the store assigned. Fails, leaving the
    /// store and the session as they were, exactly when the table has used up
    /// its identifiers.
    pub fn start(&mut self, db: &mut EventStore) -> (r: Result<i64, StoreError>)
        requires
            old(db).wf(),
        ensures
            final(db).wf(),
            final(db)@ == old(db)@.with_session(old(self)@.reopened()),
            r is Ok <==> old(db)@.last_session_id < i64::MAX,
            r is Ok ==> r->Ok_0 == old(db)@.last_session_id + 1 && final(self)@ == (SessionView {
                id: Some(r->Ok_0),
                ..old(self)@
            }),
            r is Err ==> r == Err::<i64, StoreError>(StoreError::Full) && final(self)@
                == old(self)@,
    {
        let row = Session {
            id: None,
            start_time: self.start_time.clone(),
            end_time: None,
            total_keys: self.total_keys,
        };
        match db.insert_session(&row) {
            Ok(id) => {
                self.id = Some(id);
                Ok(id)
            },
            Err(e) => Err(e),
        }
    }

    /// Closes the session at `now`: sets its end time and, where the session
    /// was started, writes the end time and the key count to its stored row.
    pub fn end_at(&mut self, db: &mut EventStore, now: Timestamp)
        requires
            old(db).wf(),
        ensures
            final(db).wf(),
            final(self)@ == old(self)@.closed_at(now@),
            final(db)@ == old(db)@.with_sessions(
                sessions_after_end(old(db)@.sessions, old(self)@, now@),
            ),
    {
        if let Some(id) = self.id {
            db.finalize_session(id, &now, self.total_keys);
        }
        self.end_time = Some(now);
    }

    /// Closes the session now. The end time is whatever the clock gave; the
    /// rest is as in [`Session::end_at`].
    pub fn end(&mut self, db: &mut EventStore)
        requires
            old(db).wf(),
        ensures
            final(db).wf(),
            final(self)@.end_time is Some,
            final(self)@.end_time->0.in_calendar(),
            final(self)@ == old(self)@.closed_at(final(self)@.end_time->0),
            final(db)@ == old(db)@.with_sessions(
                sessions_after_end(old(db)@.sessions, old(self)@, final(self)@.end_time->0),
            ),
    {
        self.end_at(db, Timestamp::now());
    }

    /// Counts one more key.
    pub fn increment_keys(&mut self)
        requires
            old(self).total_keys < i64::MAX,
        ensures
            final(self)@ == old(self)@.with_one_more_key(),
    {
        self.total_keys += 1;
    }
}

/// A typing rate measured over one sampling window.
#[derive(Debug)]
pub struct TypingSample {
    /// The rate in thousandths of a character per minute.
    pub milli_chars_per_minute: u64,
    pub timestamp: Timestamp,
}

/// What a typing sample holds.
pub ghost struct TypingSampleView {
    pub milli_chars_per_minute: u64,
    pub timestamp: TimestampView,
}

impl View for TypingSample {
    type V = TypingSampleView;

    open spec fn view(&self) -> TypingSampleView {
        TypingSampleView {
            milli_chars_per_minute: self.milli_chars_per_minute,
            timestamp: self.timestamp@,
        }
    }
}

impl Clone for TypingSample {
    fn clone(&self) -> (r: Self)
        ensures
            r@ == self@,
    {
        TypingSample {
            milli_chars_per_minute: self.milli_chars_per_minute,
            timestamp: self.timestamp.clone(),
        }
    }
}

impl TypingSample {
    /// A sample taken at `timestamp`.
    pub fn at(milli_chars_per_minute: u64, timestamp: Timestamp) -> (r: Self)
        ensures
            r@ == (TypingSampleView { milli_chars_per_minute, timestamp: timestamp@ }),
    {
        TypingSample { milli_chars_per_minute, timestamp }
    }

    /// A sample taken now.
    pub fn new(milli_chars_per_minute: u64) -> (r: Self)
        ensures
            r@.milli_chars_per_minute == milli_chars_per_minute,
            r@.timestamp.in_calendar(),
    {
        TypingSample::at(milli_chars_per_minute, Timestamp::now())
    }

    /// Appends the sample to the store's typing samples. Fails, leaving the
    /// store as it was, exactly when the table has used up its identifiers.
    pub fn save(&self, db: &mut EventStore) -> (r: Result<(), StoreError>)
        requires
            old(db).wf(),
        ensures
            final(db).wf(),
            final(db)@ == old(db)@.with_typing_sample(self@),
            r is Ok <==> old(db)@.last_typing_sample_id < i64::MAX,
            r is Err ==> r == Err::<(), StoreError>(StoreError::Full),
    {
        match db.insert_typing_sample(self) {
            Ok(_) => Ok(()),
            Err(e) => Err(e),
        }
    }
}

} // verus!
