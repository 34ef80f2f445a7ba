//! What holds of every snapshot: a store has one snapshot and no other, a
//! store without rows has the empty one, and top lists descend.

use vstd::prelude::*;
use crate::db::models::KeyEventView;
use crate::db::EventStoreView;
use crate::stats::calculator::{
    combo_entries,
    describes,
    hour_counts,
    day_counts,
    is_busiest,
    is_earliest,
    is_latest,
    is_most_pressed_combo,
    is_most_pressed_key,
    is_top_combos,
    is_top_keys,
    key_entries,
    AllStatsView,
    ComboStatsView,
    KeyStatsView,
    TOP_COMBOS,
    TOP_KEYS,
};
use crate::stats::counting::{class_count, combo_texts, key_names, occurrences, KeyClass};
use crate::stats::ranking::{
    is_ranking,
    is_top,
    lemma_ranking_distinct,
    lemma_ranking_of_nothing,
    lemma_ranking_unique,
    lemma_top_unique,
    outranks,
};
use crate::text::lemma_precedes_total;

verus! {

/// A store without rows has one snapshot, the empty one.
pub proof fn lemma_snapshot_of_empty_store(store: EventStoreView, stats: AllStatsView)
    requires
        store.is_empty(),
        describes(store, stats),
    ensures
        stats == AllStatsView::empty(),
{
    let events = store.key_events;
    let names = key_names(events);
    let combos = combo_texts(store.key_combos);
    let empty = AllStatsView::empty();
    assert(names.len() == 0);
    assert(combos.len() == 0);
    assert(names.to_set() =~= Set::<Seq<char>>::empty());
    assert(combos.to_set() =~= Set::<Seq<char>>::empty());
    lemma_ranking_of_nothing(names, stats.key_frequency_map);
    assert(stats.key_frequency_map =~= empty.key_frequency_map);
    assert(stats.top_keys =~= empty.top_keys);
    assert(stats.top_combos =~= empty.top_combos);
    assert forall|h: int| 0 <= h < 24 implies (#[trigger] stats.hourly_distribution[h])
        == empty.hourly_distribution[h] by {
        assert(class_count(events, KeyClass::Hour(h as u32)) == 0);
    }
    assert(stats.hourly_distribution =~= empty.hourly_distribution);
    assert forall|d: int| 0 <= d < 7 implies (#[trigger] stats.daily_distribution[d])
        == empty.daily_distribution[d] by {
        assert(class_count(events, KeyClass::Day(d as u32)) == 0);
    }
    assert(stats.daily_distribution =~= empty.daily_distribution);
}

/// Whatever a store held, its snapshot after every row was deleted is the
/// snapshot of a store that never held a row.
pub proof fn lemma_snapshot_after_reset(store: EventStoreView, stats: AllStatsView)
    requires
        describes(store.cleared(), stats),
    ensures
        stats == AllStatsView::empty(),
        describes(EventStoreView::empty(), stats),
{
    lemma_snapshot_of_empty_store(store.cleared(), stats);
}

/// The entries of a top list stand in order of descending count, and each
/// carries the number of times that its name occurs.
pub proof fn lemma_top_descending(names: Seq<Seq<char>>, limit: nat, r: Seq<(Seq<char>, int)>)
    requires
        is_top(names, limit, r),
    ensures
        forall|i: int, j: int| 0 <= i < j < r.len() ==> (#[trigger] r[i]).1 >= (#[trigger] r[j]).1,
        forall|i: int| 0 <= i < r.len() ==> (#[trigger] r[i]).1 == occurrences(names, r[i].0),
        forall|i: int, j: int| 0 <= i < j < r.len() ==> (#[trigger] r[i]).0 != (#[trigger] r[j]).0,
{
    let full = choose|full: Seq<(Seq<char>, int)>|
        #![auto]
        is_ranking(names, full) && r == full.take(
            if limit <= full.len() {
                limit as int
            } else {
                full.len() as int
            },
        );
    lemma_ranking_distinct(names, full);
    assert forall|i: int, j: int| 0 <= i < j < r.len() implies (#[trigger] r[i]).1 >= (
    #[trigger] r[j]).1 && r[i].0 != r[j].0 by {
        assert(r[i] == full[i] && r[j] == full[j]);
        assert(outranks(full[i], full[j]));
    }
    assert forall|i: int| 0 <= i < r.len() implies (#[trigger] r[i]).1 == occurrences(
        names,
        r[i].0,
    ) by {
        assert(r[i] == full[i]);
    }
}

/// The events, the limit and the total decide the list of top keys.
pub proof fn lemma_top_keys_unique(
    events: Seq<KeyEventView>,
    limit: nat,
    total: int,
    a: Seq<KeyStatsView>,
    b: Seq<KeyStatsView>,
)
    requires
        is_top_keys(events, limit, total, a),
        is_top_keys(events, limit, total, b),
    ensures
        a == b,
{
    lemma_top_unique(key_names(events), limit, key_entries(a), key_entries(b));
    assert forall|i: int| 0 <= i < a.len() implies a[i] == b[i] by {
        assert(key_entries(a)[i] == key_entries(b)[i]);
    }
    assert(a =~= b);
}

/// The combos and the limit decide the list of top combos.
pub proof fn lemma_top_combos_unique(
    names: Seq<Seq<char>>,
    limit: nat,
    a: Seq<ComboStatsView>,
    b: Seq<ComboStatsView>,
)
    requires
        is_top_combos(names, limit, a),
        is_top_combos(names, limit, b),
    ensures
        a == b,
{
    lemma_top_unique(names, limit, combo_entries(a), combo_entries(b));
    assert forall|i: int| 0 <= i < a.len() implies a[i] == b[i] by {
        assert(combo_entries(a)[i] == combo_entries(b)[i]);
    }
    assert(a =~= b);
}

/// The events decide the most pressed key.
pub proof fn lemma_most_pressed_key_unique(
    events: Seq<KeyEventView>,
    a: Option<KeyStatsView>,
    b: Option<KeyStatsView>,
)
    requires
        is_most_pressed_key(events, a),
        is_most_pressed_key(events, b),
    ensures
        a == b,
{
    if a is Some && b is Some {
        lemma_top_keys_unique(events, 1, events.len() as int, seq![a->0], seq![b->0]);
        assert(seq![a->0][0] == seq![b->0][0]);
    }
}

/// The combos decide the most pressed combo.
pub proof fn lemma_most_pressed_combo_unique(
    names: Seq<Seq<char>>,
    a: Option<ComboStatsView>,
    b: Option<ComboStatsView>,
)
    requires
        is_most_pressed_combo(names, a),
        is_most_pressed_combo(names, b),
    ensures
        a == b,
{
    if a is Some && b is Some {
        let x = seq![(a->0.combo, a->0.count as int)];
        let y = seq![(b->0.combo, b->0.count as int)];
        lemma_top_unique(names, 1, x, y);
        assert(x[0] == y[0]);
    }
}

/// The counts decide which position is the busiest.
pub proof fn lemma_busiest_unique(counts: Seq<int>, j: int, k: int)
    requires
        is_busiest(counts, j),
        is_busiest(counts, k),
    ensures
        j == k,
{
    if j < k {
        assert(counts[k] < counts[j]);
        assert(counts[j] <= counts[k]);
    } else if k < j {
        assert(counts[j] < counts[k]);
        assert(counts[k] <= counts[j]);
    }
}

/// The events decide the earliest timestamp.
pub proof fn lemma_earliest_unique(events: Seq<KeyEventView>, a: Seq<char>, b: Seq<char>)
    requires
        is_earliest(events, a),
        is_earliest(events, b),
    ensures
        a == b,
{
    if a != b {
        lemma_precedes_total(a, b, 0);
        let i = choose|i: int| 0 <= i < events.len() && (#[trigger] events[i]).timestamp.rfc3339 == a;
        let j = choose|j: int| 0 <= j < events.len() && (#[trigger] events[j]).timestamp.rfc3339 == b;
    }
}

/// The events decide the latest timestamp.
pub proof fn lemma_latest_unique(events: Seq<KeyEventView>, a: Seq<char>, b: Seq<char>)
    requires
        is_latest(events, a),
        is_latest(events, b),
    ensures
        a == b,
{
    if a != b {
        lemma_precedes_total(a, b, 0);
        let i = choose|i: int| 0 <= i < events.len() && (#[trigger] events[i]).timestamp.rfc3339 == a;
        let j = choose|j: int| 0 <= j < events.len() && (#[trigger] events[j]).timestamp.rfc3339 == b;
    }
}

/// A store has one snapshot: whatever describes the store is that snapshot,
/// in every field.
pub proof fn lemma_snapshot_unique(store: EventStoreView, a: AllStatsView, b: AllStatsView)
    requires
        describes(store, a),
        describes(store, b),
    ensures
        a == b,
{
    let events = store.key_events;
    let names = key_names(events);
    let combos = combo_texts(store.key_combos);
    lemma_most_pressed_key_unique(events, a.most_pressed_key, b.most_pressed_key);
    lemma_most_pressed_combo_unique(combos, a.most_pressed_combo, b.most_pressed_combo);
    lemma_top_keys_unique(events, TOP_KEYS as nat, events.len() as int, a.top_keys, b.top_keys);
    lemma_top_combos_unique(combos, TOP_COMBOS as nat, a.top_combos, b.top_combos);
    lemma_ranking_unique(names, a.key_frequency_map, b.key_frequency_map);
    assert(a.hourly_distribution =~= b.hourly_distribution);
    assert(a.daily_distribution =~= b.daily_distribution);
    if a.most_active_hour is Some && b.most_active_hour is Some {
        let counts = hour_counts(a.hourly_distribution);
        let j = choose|k: int|
            #![auto]
            is_busiest(counts, k) && a.most_active_hour->0 == a.hourly_distribution[k];
        let k = choose|k: int|
            #![auto]
            is_busiest(counts, k) && b.most_active_hour->0 == b.hourly_distribution[k];
        lemma_busiest_unique(counts, j, k);
    }
    if a.most_active_day is Some && b.most_active_day is Some {
        let counts = day_counts(a.daily_distribution);
        let j = choose|k: int|
            #![auto]
            is_busiest(counts, k) && a.most_active_day->0 == a.daily_distribution[k];
        let k = choose|k: int|
            #![auto]
            is_busiest(counts, k) && b.most_active_day->0 == b.daily_distribution[k];
        lemma_busiest_unique(counts, j, k);
    }
    if a.first_recorded is Some && b.first_recorded is Some {
        lemma_earliest_unique(events, a.first_recorded->0, b.first_recorded->0);
    }
    if a.last_recorded is Some && b.last_recorded is Some {
        lemma_latest_unique(events, a.last_recorded->0, b.last_recorded->0);
    }
}

} // verus!
