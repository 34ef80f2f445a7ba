//! The snapshot of statistics and the calculator that derives it from a store.

use vstd::prelude::*;
use crate::db::models::{KeyEventView, SessionView, TypingSampleView};
use crate::db::{EventStore, EventStoreView};
use crate::stats::counting::{
    class_count,
    combo_texts,
    combo_texts_of,
    count_class,
    count_key_name,
    key_names,
    key_names_of,
    lemma_class_count_bounded,
    lemma_letters_and_numbers_disjoint,
    occurrences,
    KeyClass,
};
use crate::stats::ranking::{
    is_ranking,
    is_top,
    lemma_ranking_of_nothing,
    lists,
    ranking,
    NameCount,
};
use crate::stats::ratio::Ratio;
use crate::views::{view_of, views};
use crate::text::{
    comes_before,
    lemma_precedes_irreflexive,
    lemma_precedes_transitive,
    precedes,
};

verus! {

/// How many keys a snapshot ranks.
pub const TOP_KEYS: usize = 20;

/// How many combos a snapshot ranks.
pub const TOP_COMBOS: usize = 10;

/// A key with its number of presses and its share of all presses in percent.
#[derive(Debug)]
pub struct KeyStats {
    pub key_name: String,
    pub count: i64,
    pub percentage: Ratio,
}

/// What the statistics of a key hold.
pub ghost struct KeyStatsView {
    pub key_name: Seq<char>,
    pub count: i64,
    pub percentage: Ratio,
}

impl View for KeyStats {
    type V = KeyStatsView;

    open spec fn view(&self) -> KeyStatsView {
        KeyStatsView { key_name: self.key_name@, count: self.count, percentage: self.percentage }
    }
}

impl Clone for KeyStats {
    fn clone(&self) -> (r: Self)
        ensures
            r@ == self@,
    {
        KeyStats {
            key_name: self.key_name.clone(),
            count: self.count,
            percentage: self.percentage,
        }
    }
}

/// A combo with its number of presses.
#[derive(Debug)]
pub struct ComboStats {
    pub combo: String,
    pub count: i64,
}

/// What the statistics of a combo hold.
pub ghost struct ComboStatsView {
    pub combo: Seq<char>,
    pub count: i64,
}

impl View for ComboStats {
    type V = ComboStatsView;

    open spec fn view(&self) -> ComboStatsView {
        ComboStatsView { combo: self.combo@, count: self.count }
    }
}

impl Clone for ComboStats {
    fn clone(&self) -> (r: Self)
        ensures
            r@ == self@,
    {
        ComboStats { combo: self.combo.clone(), count: self.count }
    }
}

/// The number of presses in one hour of the day.
#[derive(Debug, Clone, Copy, PartialEq, Eq, Structural)]
pub struct HourlyStats {
    pub hour: i32,
    pub count: i64,
}

/// The number of presses on one day of the week.
#[derive(Debug)]
pub struct DailyStats {
    pub day: String,
    pub count: i64,
}

/// What the statistics of a day hold.
pub ghost struct DailyStatsView {
    pub day: Seq<char>,
    pub count: i64,
}

impl View for DailyStats {
    type V = DailyStatsView;

    open spec fn view(&self) -> DailyStatsView {
        DailyStatsView { day: self.day@, count: self.count }
    }
}

impl Clone for DailyStats {
    fn clone(&self) -> (r: Self)
        ensures
            r@ == self@,
    {
        DailyStats { day: self.day.clone(), count: self.count }
    }
}

/// Every statistic of a store at one moment.
#[derive(Debug)]
pub struct AllStats {
    pub total_keys: i64,
    pub total_combos: i64,
    pub total_sessions: i64,
    pub total_time_minutes: Ratio,
    pub most_pressed_key: Option<KeyStats>,
    pub most_pressed_combo: Option<ComboStats>,
    pub top_keys: Vec<KeyStats>,
    pub top_combos: Vec<ComboStats>,
    pub spacebar_count: i64,
    pub enter_count: i64,
    pub backspace_count: i64,
    pub delete_count: i64,
    pub escape_count: i64,
    pub tab_count: i64,
    pub arrow_keys_count: i64,
    pub modifier_keys_count: i64,
    pub letter_keys_count: i64,
    pub number_keys_count: i64,
    pub special_keys_count: i64,
    pub hourly_distribution: Vec<HourlyStats>,
    pub daily_distribution: Vec<DailyStats>,
    pub most_active_hour: Option<HourlyStats>,
    pub most_active_day: Option<DailyStats>,
    pub average_keys_per_session: Ratio,
    /// In characters per minute.
    pub average_typing_speed: Ratio,
    /// In characters per minute.
    pub max_typing_speed: Ratio,
    /// Every distinct key name with its number of presses, in ranking order.
    pub key_frequency_map: Vec<NameCount>,
    pub first_recorded: Option<String>,
    pub last_recorded: Option<String>,
    pub unique_keys_used: i64,
    pub keys_per_minute_avg: Ratio,
}

/// What a snapshot holds.
pub ghost struct AllStatsView {
    pub total_keys: i64,
    pub total_combos: i64,
    pub total_sessions: i64,
    pub total_time_minutes: Ratio,
    pub most_pressed_key: Option<KeyStatsView>,
    pub most_pressed_combo: Option<ComboStatsView>,
    pub top_keys: Seq<KeyStatsView>,
    pub top_combos: Seq<ComboStatsView>,
    pub spacebar_count: i64,
    pub enter_count: i64,
    pub backspace_count: i64,
    pub delete_count: i64,
    pub escape_count: i64,
    pub tab_count: i64,
    pub arrow_keys_count: i64,
    pub modifier_keys_count: i64,
    pub letter_keys_count: i64,
    pub number_keys_count: i64,
    pub special_keys_count: i64,
    pub hourly_distribution: Seq<HourlyStats>,
    pub daily_distribution: Seq<DailyStatsView>,
    pub most_active_hour: Option<HourlyStats>,
    pub most_active_day: Option<DailyStatsView>,
    pub average_keys_per_session: Ratio,
    pub average_typing_speed: Ratio,
    pub max_typing_speed: Ratio,
    pub key_frequency_map: Seq<(Seq<char>, int)>,
    pub first_recorded: Option<Seq<char>>,
    pub last_recorded: Option<Seq<char>>,
    pub unique_keys_used: i64,
    pub keys_per_minute_avg: Ratio,
}

impl View for AllStats {
    type V = AllStatsView;

    open spec fn view(&self) -> AllStatsView {
        AllStatsView {
            total_keys: self.total_keys,
            total_combos: self.total_combos,
            total_sessions: self.total_sessions,
            total_time_minutes: self.total_time_minutes,
            most_pressed_key: view_of(self.most_pressed_key),
            most_pressed_combo: view_of(self.most_pressed_combo),
            top_keys: views(self.top_keys@),
            top_combos: views(self.top_combos@),
            spacebar_count: self.spacebar_count,
            enter_count: self.enter_count,
            backspace_count: self.backspace_count,
            delete_count: self.delete_count,
            escape_count: self.escape_count,
            tab_count: self.tab_count,
            arrow_keys_count: self.arrow_keys_count,
            modifier_keys_count: self.modifier_keys_count,
            letter_keys_count: self.letter_keys_count,
            number_keys_count: self.number_keys_count,
            special_keys_count: self.special_keys_count,
            hourly_distribution: self.hourly_distribution@,
            daily_distribution: views(self.daily_distribution@),
            most_active_hour: self.most_active_hour,
            most_active_day: view_of(self.most_active_day),
            average_keys_per_session: self.average_keys_per_session,
            average_typing_speed: self.average_typing_speed,
            max_typing_speed: self.max_typing_speed,
            key_frequency_map: views(self.key_frequency_map@),
            first_recorded: view_of(self.first_recorded),
            last_recorded: view_of(self.last_recorded),
            unique_keys_used: self.unique_keys_used,
            keys_per_minute_avg: self.keys_per_minute_avg,
        }
    }
}

/// `count` out of `total` in percent; zero where `total` is not positive.
pub open spec fn percentage_of(count: int, total: int) -> Ratio {
    Ratio::or_zero(count * 100, total)
}

/// The entries of a list of key statistics as pairs of name and count.
pub open spec fn key_entries(stats: Seq<KeyStatsView>) -> Seq<(Seq<char>, int)> {
    Seq::new(stats.len(), |i: int| (stats[i].key_name, stats[i].count as int))
}

/// The entries of a list of combo statistics as pairs of combo and count.
pub open spec fn combo_entries(stats: Seq<ComboStatsView>) -> Seq<(Seq<char>, int)> {
    Seq::new(stats.len(), |i: int| (stats[i].combo, stats[i].count as int))
}

/// The smaller of a limit and a number of entries.
pub open spec fn at_most(limit: nat, available: nat) -> nat {
    if limit <= available {
        limit
    } else {
        available
    }
}

/// `stats` ranks the `limit` most pressed keys among `events`, each with its
/// share of `total` presses.
pub open spec fn is_top_keys(
    events: Seq<KeyEventView>,
    limit: nat,
    total: int,
    stats: Seq<KeyStatsView>,
) -> bool {
    &&& is_top(key_names(events), limit, key_entries(stats))
    &&& stats.len() == at_most(limit, key_names(events).to_set().len())
    &&& forall|i: int|
        0 <= i < stats.len() ==> (#[trigger] stats[i]).percentage == percentage_of(
            stats[i].count as int,
            total,
        )
}

/// `key` is the most pressed key among `events`, absent where there are none.
pub open spec fn is_most_pressed_key(events: Seq<KeyEventView>, key: Option<KeyStatsView>) -> bool {
    match key {
        None => events.len() == 0,
        Some(k) => events.len() > 0 && is_top_keys(events, 1, events.len() as int, seq![k]),
    }
}

/// The name of a day of the week, Monday being day 0.
pub open spec fn day_name(day: int) -> Seq<char> {
    if day == 0 {
        "Monday"@
    } else if day == 1 {
        "Tuesday"@
    } else if day == 2 {
        "Wednesday"@
    } else if day == 3 {
        "Thursday"@
    } else if day == 4 {
        "Friday"@
    } else if day == 5 {
        "Saturday"@
    } else {
        "Sunday"@
    }
}

/// `hours` holds the 24 hours of the day in order, each with the number of
/// events that fell into it.
pub open spec fn is_hourly(events: Seq<KeyEventView>, hours: Seq<HourlyStats>) -> bool {
    &&& hours.len() == 24
    &&& forall|h: int|
        0 <= h < 24 ==> (#[trigger] hours[h]).hour == h && hours[h].count == class_count(
            events,
            KeyClass::Hour(h as u32),
        )
}

/// `days` holds the 7 days of the week from Monday on, each with the number
/// of events that fell onto it.
pub open spec fn is_daily(events: Seq<KeyEventView>, days: Seq<DailyStatsView>) -> bool {
    &&& days.len() == 7
    &&& forall|d: int|
        0 <= d < 7 ==> (#[trigger] days[d]).day == day_name(d) && days[d].count == class_count(
            events,
            KeyClass::Day(d as u32),
        )
}

/// The counts of a list of hours.
pub open spec fn hour_counts(hours: Seq<HourlyStats>) -> Seq<int> {
    Seq::new(hours.len(), |i: int| hours[i].count as int)
}

/// The counts of a list of days.
pub open spec fn day_counts(days: Seq<DailyStatsView>) -> Seq<int> {
    Seq::new(days.len(), |i: int| days[i].count as int)
}

/// Position `k` holds the greatest count, and no later position holds it too.
pub open spec fn is_busiest(counts: Seq<int>, k: int) -> bool {
    &&& 0 <= k < counts.len()
    &&& forall|j: int| 0 <= j < counts.len() ==> #[trigger] counts[j] <= counts[k]
    &&& forall|j: int| k < j < counts.len() ==> #[trigger] counts[j] < counts[k]
}

/// `hour` is the busiest of `hours`, absent where no event was recorded.
pub open spec fn is_most_active_hour(
    total: int,
    hours: Seq<HourlyStats>,
    hour: Option<HourlyStats>,
) -> bool {
    match hour {
        None => total == 0 || hours.len() == 0,
        Some(h) => total != 0 && exists|k: int|
            #![auto]
            is_busiest(hour_counts(hours), k) && h == hours[k],
    }
}

/// `day` is the busiest of `days`, absent where no event was recorded.
pub open spec fn is_most_active_day(
    total: int,
    days: Seq<DailyStatsView>,
    day: Option<DailyStatsView>,
) -> bool {
    match day {
        None => total == 0 || days.len() == 0,
        Some(d) => total != 0 && exists|k: int|
            #![auto]
            is_busiest(day_counts(days), k) && d == days[k],
    }
}

/// The time in milliseconds that the closed sessions among `sessions` lasted.
pub open spec fn recorded_millis(sessions: Seq<SessionView>) -> int
    decreases sessions.len(),
{
    if sessions.len() == 0 {
        0
    } else {
        recorded_millis(sessions.drop_last()) + sessions.last().millis()
    }
}

/// The sum of the rates of `samples`, in thousandths of a character per minute.
pub open spec fn rate_sum(samples: Seq<TypingSampleView>) -> int
    decreases samples.len(),
{
    if samples.len() == 0 {
        0
    } else {
        rate_sum(samples.drop_last()) + samples.last().milli_chars_per_minute
    }
}

/// The greatest rate among `samples`, in thousandths of a character per
/// minute; zero where there is no sample.
pub open spec fn rate_max(samples: Seq<TypingSampleView>) -> int
    decreases samples.len(),
{
    if samples.len() == 0 {
        0
    } else {
        let rest = rate_max(samples.drop_last());
        if samples.last().milli_chars_per_minute > rest {
            samples.last().milli_chars_per_minute as int
        } else {
            rest
        }
    }
}

/// The mean rate of `samples` in characters per minute; zero where there is no sample.
pub open spec fn mean_rate(samples: Seq<TypingSampleView>) -> Ratio {
    Ratio::or_zero(rate_sum(samples), 1000 * (samples.len() as int))
}

/// The greatest rate among `samples` in characters per minute; zero where there is no sample.
pub open spec fn top_rate(samples: Seq<TypingSampleView>) -> Ratio {
    Ratio { num: rate_max(samples) as i128, den: 1000 }
}

/// `text` is the timestamp of one of `events`, and that of none of them comes before it.
pub open spec fn is_earliest(events: Seq<KeyEventView>, text: Seq<char>) -> bool {
    &&& exists|i: int| 0 <= i < events.len() && (#[trigger] events[i]).timestamp.rfc3339 == text
    &&& forall|j: int|
        0 <= j < events.len() ==> !precedes((#[trigger] events[j]).timestamp.rfc3339, text)
}

/// `text` is the timestamp of one of `events`, and it comes before that of none of them.
pub open spec fn is_latest(events: Seq<KeyEventView>, text: Seq<char>) -> bool {
    &&& exists|i: int| 0 <= i < events.len() && (#[trigger] events[i]).timestamp.rfc3339 == text
    &&& forall|j: int|
        0 <= j < events.len() ==> !precedes(text, (#[trigger] events[j]).timestamp.rfc3339)
}

/// `first` is the earliest timestamp text among `events`, absent where there are none.
pub open spec fn is_first_recorded(events: Seq<KeyEventView>, first: Option<Seq<char>>) -> bool {
    match first {
        None => events.len() == 0,
        Some(text) => is_earliest(events, text),
    }
}

/// `last` is the latest timestamp text among `events`, absent where there are none.
pub open spec fn is_last_recorded(events: Seq<KeyEventView>, last: Option<Seq<char>>) -> bool {
    match last {
        None => events.len() == 0,
        Some(text) => is_latest(events, text),
    }
}

/// `combo` is the most pressed combo among `combos`, absent where there are none.
pub open spec fn is_most_pressed_combo(names: Seq<Seq<char>>, combo: Option<ComboStatsView>) -> bool {
    match combo {
        None => names.len() == 0,
        Some(c) => names.len() > 0 && is_top(names, 1, seq![(c.combo, c.count as int)]),
    }
}

/// `stats` ranks the `limit` most pressed combos among `names`.
pub open spec fn is_top_combos(names: Seq<Seq<char>>, limit: nat, stats: Seq<ComboStatsView>) -> bool {
    &&& is_top(names, limit, combo_entries(stats))
    &&& stats.len() == at_most(limit, names.to_set().len())
}

/// `stats` is the snapshot of `store`.
pub open spec fn describes(store: EventStoreView, stats: AllStatsView) -> bool {
    let events = store.key_events;
    let names = key_names(events);
    let combos = combo_texts(store.key_combos);
    &&& stats.total_keys == events.len()
    &&& stats.total_combos == store.key_combos.len()
    &&& stats.total_sessions == store.sessions.len()
    &&& stats.total_time_minutes == (Ratio {
        num: recorded_millis(store.sessions) as i128,
        den: 60_000,
    })
    &&& is_most_pressed_key(events, stats.most_pressed_key)
    &&& is_most_pressed_combo(combos, stats.most_pressed_combo)
    &&& is_top_keys(events, TOP_KEYS as nat, events.len() as int, stats.top_keys)
    &&& is_top_combos(combos, TOP_COMBOS as nat, stats.top_combos)
    &&& stats.spacebar_count == occurrences(names, "Space"@)
    &&& stats.enter_count == occurrences(names, "Return"@) + occurrences(names, "Enter"@)
    &&& stats.backspace_count == occurrences(names, "Backspace"@)
    &&& stats.delete_count == occurrences(names, "Delete"@)
    &&& stats.escape_count == occurrences(names, "Escape"@)
    &&& stats.tab_count == occurrences(names, "Tab"@)
    &&& stats.arrow_keys_count == occurrences(names, "UpArrow"@) + occurrences(
        names,
        "DownArrow"@,
    ) + occurrences(names, "LeftArrow"@) + occurrences(names, "RightArrow"@)
    &&& stats.modifier_keys_count == class_count(events, KeyClass::Modifier)
    &&& stats.letter_keys_count == class_count(events, KeyClass::Letter)
    &&& stats.number_keys_count == class_count(events, KeyClass::Number)
    &&& stats.special_keys_count == events.len() - class_count(events, KeyClass::Letter)
        - class_count(events, KeyClass::Number) - class_count(events, KeyClass::Modifier)
    &&& is_hourly(events, stats.hourly_distribution)
    &&& is_daily(events, stats.daily_distribution)
    &&& is_most_active_hour(events.len() as int, stats.hourly_distribution, stats.most_active_hour)
    &&& is_most_active_day(events.len() as int, stats.daily_distribution, stats.most_active_day)
    &&& stats.average_keys_per_session == Ratio::or_zero(
        events.len() as int,
        store.sessions.len() as int,
    )
    &&& stats.average_typing_speed == mean_rate(store.typing_samples)
    &&& stats.max_typing_speed == top_rate(store.typing_samples)
    &&& is_ranking(names, stats.key_frequency_map)
    &&& is_first_recorded(events, stats.first_recorded)
    &&& is_last_recorded(events, stats.last_recorded)
    &&& stats.unique_keys_used == names.to_set().len()
    &&& stats.keys_per_minute_avg == Ratio::or_zero(
        (events.len() as int) * 60_000,
        recorded_millis(store.sessions),
    )
}

impl AllStatsView {
    /// The snapshot of a store without rows: every count is zero, every
    /// average, rate and percentage is zero, every ranking is empty, every
    /// hour and day is there with a count of zero, and nothing is named as
    /// most pressed, most active, first or last.
    pub open spec fn empty() -> AllStatsView {
        AllStatsView {
            total_keys: 0,
            total_combos: 0,
            total_sessions: 0,
            total_time_minutes: Ratio { num: 0, den: 60_000 },
            most_pressed_key: None,
            most_pressed_combo: None,
            top_keys: Seq::empty(),
            top_combos: Seq::empty(),
            spacebar_count: 0,
            enter_count: 0,
            backspace_count: 0,
            delete_count: 0,
            escape_count: 0,
            tab_count: 0,
            arrow_keys_count: 0,
            modifier_keys_count: 0,
            letter_keys_count: 0,
            number_keys_count: 0,
            special_keys_count: 0,
            hourly_distribution: Seq::new(24, |h: int| HourlyStats { hour: h as i32, count: 0 }),
            daily_distribution: Seq::new(
                7,
                |d: int| DailyStatsView { day: day_name(d), count: 0 },
            ),
            most_active_hour: None,
            most_active_day: None,
            average_keys_per_session: Ratio::zero(),
            average_typing_speed: Ratio::zero(),
            max_typing_speed: Ratio { num: 0, den: 1000 },
            key_frequency_map: Seq::empty(),
            first_recorded: None,
            last_recorded: None,
            unique_keys_used: 0,
            keys_per_minute_avg: Ratio::zero(),
        }
    }
}

/// Two different names together occur at most as often as there are names.
pub proof fn lemma_two_names_bounded(names: Seq<Seq<char>>, a: Seq<char>, b: Seq<char>)
    requires
        a != b,
    ensures
        occurrences(names, a) + occurrences(names, b) <= names.len(),
    decreases names.len(),
{
    if names.len() > 0 {
        lemma_two_names_bounded(names.drop_last(), a, b);
    }
}

/// Four different names together occur at most as often as there are names.
pub proof fn lemma_four_names_bounded(
    names: Seq<Seq<char>>,
    a: Seq<char>,
    b: Seq<char>,
    c: Seq<char>,
    d: Seq<char>,
)
    requires
        a != b,
        a != c,
        a != d,
        b != c,
        b != d,
        c != d,
    ensures
        occurrences(names, a) + occurrences(names, b) + occurrences(names, c) + occurrences(
            names,
            d,
        ) <= names.len(),
    decreases names.len(),
{
    if names.len() > 0 {
        lemma_four_names_bounded(names.drop_last(), a, b, c, d);
    }
}

/// The closed sessions among `n` sessions lasted at most `n` times the
/// greatest distance between two timestamps.
pub proof fn lemma_recorded_millis_bounded(sessions: Seq<SessionView>)
    ensures
        -(sessions.len() * 0xffff_ffff_ffff_ffff) <= recorded_millis(sessions) <= sessions.len()
            * 0xffff_ffff_ffff_ffff,
    decreases sessions.len(),
{
    if sessions.len() > 0 {
        lemma_recorded_millis_bounded(sessions.drop_last());
        assert((sessions.len() - 1) * 0xffff_ffff_ffff_ffff + 0xffff_ffff_ffff_ffff
            == sessions.len() * 0xffff_ffff_ffff_ffff) by (nonlinear_arith);
    }
}

/// The rates of `n` samples sum to at most `n` times the greatest rate that a sample can hold.
pub proof fn lemma_rate_sum_bounded(samples: Seq<TypingSampleView>)
    ensures
        0 <= rate_sum(samples) <= samples.len() * 0xffff_ffff_ffff_ffff,
        0 <= rate_max(samples) <= 0xffff_ffff_ffff_ffff,
    decreases samples.len(),
{
    if samples.len() > 0 {
        lemma_rate_sum_bounded(samples.drop_last());
        assert((samples.len() - 1) * 0xffff_ffff_ffff_ffff + 0xffff_ffff_ffff_ffff
            == samples.len() * 0xffff_ffff_ffff_ffff) by (nonlinear_arith);
    }
}

/// A count of at most `i64::MAX` rows, each worth at most `u64::MAX`, fits 128 bits.
pub proof fn lemma_weighted_count_fits(n: int)
    requires
        0 <= n <= i64::MAX,
    ensures
        n * 0xffff_ffff_ffff_ffff <= 0x7fff_ffff_ffff_ffff * 0xffff_ffff_ffff_ffff,
        0x7fff_ffff_ffff_ffff * 0xffff_ffff_ffff_ffff < i128::MAX,
{
    assert(n * 0xffff_ffff_ffff_ffff <= 0x7fff_ffff_ffff_ffff * 0xffff_ffff_ffff_ffff)
        by (nonlinear_arith)
        requires
            0 <= n <= 0x7fff_ffff_ffff_ffff,
    ;
}

/// The name of a day of the week, Monday being day 0.
pub fn day_label(day: u32) -> (label: String)
    ensures
        label@ == day_name(day as int),
{
    let name = if day == 0 {
        "Monday"
    } else if day == 1 {
        "Tuesday"
    } else if day == 2 {
        "Wednesday"
    } else if day == 3 {
        "Thursday"
    } else if day == 4 {
        "Friday"
    } else if day == 5 {
        "Saturday"
    } else {
        "Sunday"
    };
    name.to_owned()
}

/// The first `limit` entries of `full`, or all of them where there are fewer.
pub fn leading(full: &Vec<NameCount>, limit: usize) -> (top: Vec<NameCount>)
    ensures
        views(top@) == views(full@).take(at_most(limit as nat, full@.len()) as int),
{
    let n: usize = if limit <= full.len() {
        limit
    } else {
        full.len()
    };
    let mut top: Vec<NameCount> = Vec::new();
    let mut i: usize = 0;
    while i < n
        invariant
            i <= n <= full@.len(),
            top@.len() == i,
            forall|k: int| 0 <= k < i ==> top@[k]@ == full@[k]@,
        decreases n - i,
    {
        top.push(full[i].clone());
        i += 1;
    }
    assert(views(top@) =~= views(full@).take(n as int));
    top
}

/// The busiest of `hours`: the last one among those with the greatest count.
/// Absent where `total`, the number of recorded events, is zero.
pub fn most_active_hour(total: i64, hours: &Vec<HourlyStats>) -> (r: Option<HourlyStats>)
    ensures
        is_most_active_hour(total as int, hours@, r),
{
    if total == 0 || hours.len() == 0 {
        return None;
    }
    let ghost counts = hour_counts(hours@);
    let mut best: usize = 0;
    let mut i: usize = 1;
    while i < hours.len()
        invariant
            1 <= i <= hours@.len(),
            best < i,
            counts == hour_counts(hours@),
            forall|j: int| 0 <= j < i ==> #[trigger] counts[j] <= counts[best as int],
            forall|j: int| best < j < i ==> #[trigger] counts[j] < counts[best as int],
        decreases hours@.len() - i,
    {
        if hours[i].count >= hours[best].count {
            best = i;
        }
        i += 1;
    }
    assert(is_busiest(counts, best as int));
    Some(hours[best])
}

/// The busiest of `days`: the last one among those with the greatest count.
/// Absent where `total`, the number of recorded events, is zero.
pub fn most_active_day(total: i64, days: &Vec<DailyStats>) -> (r: Option<DailyStats>)
    ensures
        is_most_active_day(total as int, views(days@), view_of(r)),
{
    if total == 0 || days.len() == 0 {
        return None;
    }
    let ghost counts = day_counts(views(days@));
    let mut best: usize = 0;
    let mut i: usize = 1;
    while i < days.len()
        invariant
            1 <= i <= days@.len(),
            best < i,
            counts == day_counts(views(days@)),
            forall|j: int| 0 <= j < i ==> #[trigger] counts[j] <= counts[best as int],
            forall|j: int| best < j < i ==> #[trigger] counts[j] < counts[best as int],
        decreases days@.len() - i,
    {
        if days[i].count >= days[best].count {
            best = i;
        }
        i += 1;
    }
    assert(is_busiest(counts, best as int));
    assert(views(days@)[best as int] == days@[best as int]@);
    Some(days[best].clone())
}

/// Derives statistics from the store that it holds.
#[derive(Debug)]
pub struct StatsCalculator {
    db: EventStore,
}

impl StatsCalculator {
    /// What the store holds.
    pub closed spec fn store(&self) -> EventStoreView {
        self.db@
    }

    /// The store is well formed.
    pub closed spec fn wf(&self) -> bool {
        self.db.wf()
    }

    /// A calculator over `db`.
    pub fn new(db: EventStore) -> (r: Self)
        requires
            db.wf(),
        ensures
            r.wf(),
            r.store() == db@,
    {
        StatsCalculator { db }
    }

    /// The store, handed back.
    pub fn into_store(self) -> (db: EventStore)
        requires
            self.wf(),
        ensures
            db.wf(),
            db@ == self.store(),
    {
        self.db
    }

    /// How often a key of this name was pressed.
    pub fn get_key_count(&self, key_name: &str) -> (n: i64)
        requires
            self.wf(),
        ensures
            n == occurrences(key_names(self.store().key_events), key_name@),
    {
        count_key_name(self.db.key_events(), key_name)
    }

    /// The ranking of all key names.
    pub fn get_key_frequency_map(&self) -> (r: Vec<NameCount>)
        requires
            self.wf(),
        ensures
            is_ranking(key_names(self.store().key_events), views(r@)),
            r@.len() == key_names(self.store().key_events).to_set().len(),
    {
        let events = self.db.key_events();
        let names = key_names_of(events);
        assert(views(names@).len() == names@.len());
        assert(views(events@).len() == events@.len());
        ranking(&names)
    }

    /// The `limit` most pressed keys, each with its share of `total` presses.
    pub fn get_top_keys(&self, limit: usize, total: i64) -> (r: Vec<KeyStats>)
        requires
            self.wf(),
        ensures
            is_top_keys(self.store().key_events, limit as nat, total as int, views(r@)),
    {
        let full = self.get_key_frequency_map();
        let top = leading(&full, limit);
        let mut r: Vec<KeyStats> = Vec::new();
        let mut i: usize = 0;
        while i < top.len()
            invariant
                i <= top@.len(),
                r@.len() == i,
                forall|k: int|
                    0 <= k < i ==> (#[trigger] r@[k]).key_name@ == top@[k].name@ && r@[k].count
                        == top@[k].count && r@[k].percentage == percentage_of(
                        r@[k].count as int,
                        total as int,
                    ),
            decreases top@.len() - i,
        {
            let entry = &top[i];
            r.push(
                KeyStats {
                    key_name: entry.name.clone(),
                    count: entry.count,
                    percentage: Ratio::new(entry.count as i128 * 100, total as i128),
                },
            );
            i += 1;
        }
        proof {
            assert(key_entries(views(r@)) =~= views(top@));
        }
        r
    }

    /// The most pressed key, absent where no key was pressed.
    pub fn get_most_pressed_key(&self) -> (r: Option<KeyStats>)
        requires
            self.wf(),
        ensures
            is_most_pressed_key(self.store().key_events, view_of(r)),
    {
        let events = self.db.key_events();
        let total: usize = events.len();
        assert(views(events@).len() == total);
        let mut top = self.get_top_keys(1, total as i64);
        let ghost listed = views(top@);
        proof {
            let names = key_names(self.store().key_events);
            let full = choose|full: Seq<(Seq<char>, int)>|
                #![auto]
                is_ranking(names, full) && key_entries(listed) == full.take(
                    if 1 <= full.len() {
                        1int
                    } else {
                        full.len() as int
                    },
                );
            if total == 0 {
                lemma_ranking_of_nothing(names, full);
            } else {
                assert(lists(full, names[0]));
            }
            assert(key_entries(listed).len() == listed.len());
        }
        let r = top.pop();
        proof {
            if r is Some {
                assert(listed =~= seq![r->0@]);
            }
        }
        r
    }

    /// The `limit` most pressed combos.
    pub fn get_top_combos(&self, limit: usize) -> (r: Vec<ComboStats>)
        requires
            self.wf(),
        ensures
            is_top_combos(combo_texts(self.store().key_combos), limit as nat, views(r@)),
    {
        let combos = self.db.key_combos();
        let names = combo_texts_of(combos);
        assert(views(names@).len() == names@.len());
        assert(views(combos@).len() == combos@.len());
        let full = ranking(&names);
        let top = leading(&full, limit);
        let mut r: Vec<ComboStats> = Vec::new();
        let mut i: usize = 0;
        while i < top.len()
            invariant
                i <= top@.len(),
                r@.len() == i,
                forall|k: int|
                    0 <= k < i ==> (#[trigger] r@[k]).combo@ == top@[k].name@ && r@[k].count
                        == top@[k].count,
            decreases top@.len() - i,
        {
            let entry = &top[i];
            r.push(ComboStats { combo: entry.name.clone(), count: entry.count });
            i += 1;
        }
        proof {
            assert(combo_entries(views(r@)) =~= views(top@));
        }
        r
    }

    /// The most pressed combo, absent where no combo was pressed.
    pub fn get_most_pressed_combo(&self) -> (r: Option<ComboStats>)
        requires
            self.wf(),
        ensures
            is_most_pressed_combo(combo_texts(self.store().key_combos), view_of(r)),
    {
        let combos = self.db.key_combos();
        let total: usize = combos.len();
        assert(views(combos@).len() == total);
        let mut top = self.get_top_combos(1);
        let ghost listed = views(top@);
        proof {
            let names = combo_texts(self.store().key_combos);
            let full = choose|full: Seq<(Seq<char>, int)>|
                #![auto]
                is_ranking(names, full) && combo_entries(listed) == full.take(
                    if 1 <= full.len() {
                        1int
                    } else {
                        full.len() as int
                    },
                );
            if total == 0 {
                lemma_ranking_of_nothing(names, full);
            } else {
                assert(lists(full, names[0]));
            }
            assert(combo_entries(listed).len() == listed.len());
        }
        let r = top.pop();
        proof {
            if r is Some {
                assert(listed =~= seq![r->0@]);
                assert(combo_entries(listed) =~= seq![(r->0.combo@, r->0.count as int)]);
            }
        }
        r
    }

    /// The number of presses in each hour of the day.
    pub fn get_hourly_distribution(&self) -> (r: Vec<HourlyStats>)
        requires
            self.wf(),
        ensures
            is_hourly(self.store().key_events, r@),
    {
        let events = self.db.key_events();
        assert(views(events@).len() == events@.len());
        let mut r: Vec<HourlyStats> = Vec::new();
        let mut h: u32 = 0;
        while h < 24
            invariant
                h <= 24,
                r@.len() == h,
                views(events@) == self.store().key_events,
                events@.len() <= i64::MAX,
                forall|k: int|
                    0 <= k < h ==> (#[trigger] r@[k]).hour == k && r@[k].count == class_count(
                        views(events@),
                        KeyClass::Hour(k as u32),
                    ),
            decreases 24 - h,
        {
            let count = count_class(events, KeyClass::Hour(h));
            r.push(HourlyStats { hour: h as i32, count });
            h += 1;
        }
        r
    }

    /// The number of presses on each day of the week.
    pub fn get_daily_distribution(&self) -> (r: Vec<DailyStats>)
        requires
            self.wf(),
        ensures
            is_daily(self.store().key_events, views(r@)),
    {
        let events = self.db.key_events();
        assert(views(events@).len() == events@.len());
        let mut r: Vec<DailyStats> = Vec::new();
        let mut d: u32 = 0;
        while d < 7
            invariant
                d <= 7,
                r@.len() == d,
                views(events@) == self.store().key_events,
                events@.len() <= i64::MAX,
                forall|k: int|
                    0 <= k < d ==> (#[trigger] r@[k]).day@ == day_name(k) && r@[k].count
                        == class_count(views(events@), KeyClass::Day(k as u32)),
            decreases 7 - d,
        {
            let count = count_class(events, KeyClass::Day(d));
            r.push(DailyStats { day: day_label(d), count });
            d += 1;
        }
        r
    }

    /// The mean and the greatest typing rate, in characters per minute.
    pub fn get_typing_speed_stats(&self) -> (r: (Ratio, Ratio))
        requires
            self.wf(),
        ensures
            r.0 == mean_rate(self.store().typing_samples),
            r.1 == top_rate(self.store().typing_samples),
    {
        let samples = self.db.typing_samples();
        let ghost rows = views(samples@);
        let mut sum: i128 = 0;
        let mut max: u64 = 0;
        let mut i: usize = 0;
        while i < samples.len()
            invariant
                i <= samples@.len(),
                samples@.len() <= i64::MAX,
                rows == views(samples@),
                sum == rate_sum(rows.take(i as int)),
                max == rate_max(rows.take(i as int)),
            decreases samples@.len() - i,
        {
            proof {
                assert(rows.take(i + 1).drop_last() =~= rows.take(i as int));
                assert(rows.take(i + 1).last() == samples@[i as int]@);
                lemma_rate_sum_bounded(rows.take(i + 1));
                lemma_rate_sum_bounded(rows.take(i as int));
                lemma_weighted_count_fits(i + 1);
            }
            let rate: u64 = samples[i].milli_chars_per_minute;
            sum = sum + rate as i128;
            if rate > max {
                max = rate;
            }
            i += 1;
        }
        proof {
            assert(rows.take(i as int) =~= rows);
        }
        (Ratio::new(sum, 1000 * (samples.len() as i128)), Ratio { num: max as i128, den: 1000 })
    }

    /// The earliest timestamp among the key events, as stored.
    pub fn get_first_recorded(&self) -> (r: Option<String>)
        requires
            self.wf(),
        ensures
            is_first_recorded(self.store().key_events, view_of(r)),
    {
        let events = self.db.key_events();
        assert(views(events@).len() == events@.len());
        if events.len() == 0 {
            return None;
        }
        let mut best: usize = 0;
        let mut i: usize = 1;
        proof {
            lemma_precedes_irreflexive(events@[0].timestamp.rfc3339@, 0);
        }
        while i < events.len()
            invariant
                1 <= i <= events@.len(),
                best < i,
                forall|j: int|
                    0 <= j < i ==> !precedes(
                        (#[trigger] events@[j]).timestamp.rfc3339@,
                        events@[best as int].timestamp.rfc3339@,
                    ),
            decreases events@.len() - i,
        {
            let ghost old_best = events@[best as int].timestamp.rfc3339@;
            if comes_before(
                events[i].timestamp.rfc3339.as_str(),
                events[best].timestamp.rfc3339.as_str(),
            ) {
                proof {
                    let new_best = events@[i as int].timestamp.rfc3339@;
                    lemma_precedes_irreflexive(new_best, 0);
                    assert forall|j: int| 0 <= j < i + 1 implies !precedes(
                        (#[trigger] events@[j]).timestamp.rfc3339@,
                        new_best,
                    ) by {
                        let t = events@[j].timestamp.rfc3339@;
                        if j < i && precedes(t, new_best) {
                            lemma_precedes_transitive(t, new_best, old_best, 0);
                        }
                    }
                }
                best = i;
            }
            i += 1;
        }
        proof {
            assert(views(events@)[best as int] == events@[best as int]@);
            assert forall|j: int| 0 <= j < events@.len() implies !precedes(
                (#[trigger] views(events@)[j]).timestamp.rfc3339,
                events@[best as int].timestamp.rfc3339@,
            ) by {
                assert(views(events@)[j] == events@[j]@);
            }
        }
        Some(events[best].timestamp.rfc3339.clone())
    }

    /// The latest timestamp among the key events, as stored.
    pub fn get_last_recorded(&self) -> (r: Option<String>)
        requires
            self.wf(),
        ensures
            is_last_recorded(self.store().key_events, view_of(r)),
    {
        let events = self.db.key_events();
        assert(views(events@).len() == events@.len());
        if events.len() == 0 {
            return None;
        }
        let mut best: usize = 0;
        let mut i: usize = 1;
        proof {
            lemma_precedes_irreflexive(events@[0].timestamp.rfc3339@, 0);
        }
        while i < events.len()
            invariant
                1 <= i <= events@.len(),
                best < i,
                forall|j: int|
                    0 <= j < i ==> !precedes(
                        events@[best as int].timestamp.rfc3339@,
                        (#[trigger] events@[j]).timestamp.rfc3339@,
                    ),
            decreases events@.len() - i,
        {
            let ghost old_best = events@[best as int].timestamp.rfc3339@;
            if comes_before(
                events[best].timestamp.rfc3339.as_str(),
                events[i].timestamp.rfc3339.as_str(),
            ) {
                proof {
                    let new_best = events@[i as int].timestamp.rfc3339@;
                    lemma_precedes_irreflexive(new_best, 0);
                    assert forall|j: int| 0 <= j < i + 1 implies !precedes(
                        new_best,
                        (#[trigger] events@[j]).timestamp.rfc3339@,
                    ) by {
                        let t = events@[j].timestamp.rfc3339@;
                        if j < i && precedes(new_best, t) {
                            lemma_precedes_transitive(old_best, new_best, t, 0);
                        }
                    }
                }
                best = i;
            }
            i += 1;
        }
        proof {
            assert(views(events@)[best as int] == events@[best as int]@);
            assert forall|j: int| 0 <= j < events@.len() implies !precedes(
                events@[best as int].timestamp.rfc3339@,
                (#[trigger] views(events@)[j]).timestamp.rfc3339,
            ) by {
                assert(views(events@)[j] == events@[j]@);
            }
        }
        Some(events[best].timestamp.rfc3339.clone())
    }

    /// The time in milliseconds that the closed sessions lasted. An open
    /// session counts for nothing.
    pub fn get_total_time_millis(&self) -> (r: i128)
        requires
            self.wf(),
        ensures
            r == recorded_millis(self.store().sessions),
    {
        let sessions = self.db.sessions();
        let ghost rows = views(sessions@);
        let mut sum: i128 = 0;
        let mut i: usize = 0;
        while i < sessions.len()
            invariant
                i <= sessions@.len(),
                sessions@.len() <= i64::MAX,
                rows == views(sessions@),
                sum == recorded_millis(rows.take(i as int)),
            decreases sessions@.len() - i,
        {
            proof {
                assert(rows.take(i + 1).drop_last() =~= rows.take(i as int));
                assert(rows.take(i + 1).last() == sessions@[i as int]@);
                lemma_recorded_millis_bounded(rows.take(i + 1));
                lemma_recorded_millis_bounded(rows.take(i as int));
                lemma_weighted_count_fits(i + 1);
            }
            match &sessions[i].end_time {
                Some(end) => {
                    sum = sum + (end.unix_millis as i128 - sessions[i].start_time.unix_millis as i128);
                },
                None => {},
            }
            i += 1;
        }
        proof {
            assert(rows.take(i as int) =~= rows);
        }
        sum
    }

    /// The snapshot of the store.
    pub fn calculate_all(&self) -> (stats: AllStats)
        requires
            self.wf(),
        ensures
            describes(self.store(), stats@),
    {
        let ghost events = self.store().key_events;
        let ghost names = key_names(events);
        let stored_events = self.db.key_events();
        let stored_combos = self.db.key_combos();
        let stored_sessions = self.db.sessions();
        proof {
            assert(views(stored_events@).len() == stored_events@.len());
            assert(views(stored_combos@).len() == stored_combos@.len());
            assert(views(stored_sessions@).len() == stored_sessions@.len());
        }
        let total_keys: i64 = stored_events.len() as i64;
        let total_combos: i64 = stored_combos.len() as i64;
        let total_sessions: i64 = stored_sessions.len() as i64;
        let total_millis: i128 = self.get_total_time_millis();

        let most_pressed_key = self.get_most_pressed_key();
        let most_pressed_combo = self.get_most_pressed_combo();
        let top_keys = self.get_top_keys(TOP_KEYS, total_keys);
        let top_combos = self.get_top_combos(TOP_COMBOS);

        proof {
            reveal_strlit("Return");
            reveal_strlit("Enter");
            reveal_strlit("UpArrow");
            reveal_strlit("DownArrow");
            reveal_strlit("LeftArrow");
            reveal_strlit("RightArrow");
            assert("Return"@.len() != "Enter"@.len());
            assert("UpArrow"@.len() != "DownArrow"@.len());
            assert("UpArrow"@.len() != "LeftArrow"@.len());
            assert("UpArrow"@.len() != "RightArrow"@.len());
            assert("DownArrow"@[0] != "LeftArrow"@[0]);
            assert("DownArrow"@.len() != "RightArrow"@.len());
            assert("LeftArrow"@.len() != "RightArrow"@.len());
            lemma_two_names_bounded(names, "Return"@, "Enter"@);
            lemma_four_names_bounded(
                names,
                "UpArrow"@,
                "DownArrow"@,
                "LeftArrow"@,
                "RightArrow"@,
            );
            lemma_letters_and_numbers_disjoint(events);
            lemma_class_count_bounded(events, KeyClass::Modifier);
        }
        let spacebar_count = self.get_key_count("Space");
        let enter_count = self.get_key_count("Return") + self.get_key_count("Enter");
        let backspace_count = self.get_key_count("Backspace");
        let delete_count = self.get_key_count("Delete");
        let escape_count = self.get_key_count("Escape");
        let tab_count = self.get_key_count("Tab");
        let arrow_keys_count = self.get_key_count("UpArrow") + self.get_key_count("DownArrow")
            + self.get_key_count("LeftArrow") + self.get_key_count("RightArrow");

        let modifier_keys_count = count_class(self.db.key_events(), KeyClass::Modifier);
        let letter_keys_count = count_class(self.db.key_events(), KeyClass::Letter);
        let number_keys_count = count_class(self.db.key_events(), KeyClass::Number);
        let special_keys_count = total_keys - letter_keys_count - number_keys_count
            - modifier_keys_count;

        let hourly_distribution = self.get_hourly_distribution();
        let daily_distribution = self.get_daily_distribution();
        let most_active_hour = most_active_hour(total_keys, &hourly_distribution);
        let most_active_day = most_active_day(total_keys, &daily_distribution);

        let average_keys_per_session = Ratio::new(total_keys as i128, total_sessions as i128);
        let (average_typing_speed, max_typing_speed) = self.get_typing_speed_stats();
        let key_frequency_map = self.get_key_frequency_map();
        let first_recorded = self.get_first_recorded();
        let last_recorded = self.get_last_recorded();
        proof {
            names.lemma_cardinality_of_set();
        }
        let unique_keys_used: i64 = key_frequency_map.len() as i64;
        let keys_per_minute_avg = Ratio::new(total_keys as i128 * 60_000, total_millis);
        proof {
            lemma_recorded_millis_bounded(self.store().sessions);
            lemma_weighted_count_fits(self.store().sessions.len() as int);
        }

        AllStats {
            total_keys,
            total_combos,
            total_sessions,
            total_time_minutes: Ratio { num: total_millis, den: 60_000 },
            most_pressed_key,
            most_pressed_combo,
            top_keys,
            top_combos,
            spacebar_count,
            enter_count,
            backspace_count,
            delete_count,
            escape_count,
            tab_count,
            arrow_keys_count,
            modifier_keys_count,
            letter_keys_count,
            number_keys_count,
            special_keys_count,
            hourly_distribution,
            daily_distribution,
            most_active_hour,
            most_active_day,
            average_keys_per_session,
            average_typing_speed,
            max_typing_speed,
            key_frequency_map,
            first_recorded,
            last_recorded,
            unique_keys_used,
            keys_per_minute_avg,
        }
    }
}

} // verus!
