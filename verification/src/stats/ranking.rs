//! Grouping names by how often they occur, and ranking the groups.
//!
//! A ranking lists every distinct name once with its number of occurrences,
//! the most frequent first. Names that occur equally often stand in
//! lexicographic order, so a ranking depends on which names occur and how
//! often, and on nothing else.

use vstd::prelude::*;
use crate::stats::counting::{
    lemma_occurrences_bounded,
    lemma_occurrences_witness,
    occurrences,
};
use crate::views::views;
use crate::text::{
    comes_before,
    lemma_precedes_irreflexive,
    lemma_precedes_total,
    lemma_precedes_transitive,
    precedes,
    same_text,
};

verus! {

/// A name and how often it occurs.
#[derive(Debug)]
pub struct NameCount {
    pub name: String,
    pub count: i64,
}

impl Clone for NameCount {
    fn clone(&self) -> (r: Self)
        ensures
            r == *self,
    {
        NameCount { name: self.name.clone(), count: self.count }
    }
}

impl View for NameCount {
    type V = (Seq<char>, int);

    open spec fn view(&self) -> (Seq<char>, int) {
        (self.name@, self.count as int)
    }
}

/// `a` stands before `b` in a ranking: it occurs more often, or equally
/// often under a name that comes first.
pub open spec fn outranks(a: (Seq<char>, int), b: (Seq<char>, int)) -> bool {
    a.1 > b.1 || (a.1 == b.1 && precedes(a.0, b.0))
}

/// Every entry carries the number of times its name occurs among `names`, and that is at least once.
pub open spec fn counts_match(names: Seq<Seq<char>>, r: Seq<(Seq<char>, int)>) -> bool {
    forall|i: int|
        0 <= i < r.len() ==> (#[trigger] r[i]).1 == occurrences(names, r[i].0) && r[i].1 >= 1
}

/// `name` has an entry.
pub open spec fn lists(r: Seq<(Seq<char>, int)>, name: Seq<char>) -> bool {
    exists|i: int| 0 <= i < r.len() && (#[trigger] r[i]).0 == name
}

/// Every name among `names` has an entry.
pub open spec fn covers(names: Seq<Seq<char>>, r: Seq<(Seq<char>, int)>) -> bool {
    forall|k: int| 0 <= k < names.len() ==> lists(r, #[trigger] names[k])
}

/// No two entries carry the same name.
pub open spec fn distinct_names(r: Seq<(Seq<char>, int)>) -> bool {
    forall|i: int, j: int|
        0 <= i < j < r.len() ==> (#[trigger] r[i]).0 != (#[trigger] r[j]).0
}

/// Each entry stands before all later ones.
pub open spec fn ranked(r: Seq<(Seq<char>, int)>) -> bool {
    forall|i: int, j: int| 0 <= i < j < r.len() ==> outranks(#[trigger] r[i], #[trigger] r[j])
}

/// `t` groups `names`: one entry for each distinct name, with its number of occurrences.
pub open spec fn is_tally(names: Seq<Seq<char>>, t: Seq<(Seq<char>, int)>) -> bool {
    counts_match(names, t) && covers(names, t) && distinct_names(t)
}

/// `r` is the ranking of `names`.
pub open spec fn is_ranking(names: Seq<Seq<char>>, r: Seq<(Seq<char>, int)>) -> bool {
    counts_match(names, r) && covers(names, r) && ranked(r)
}

/// `r` holds the first `limit` entries of the ranking of `names`, or all of
/// them where there are fewer.
pub open spec fn is_top(names: Seq<Seq<char>>, limit: nat, r: Seq<(Seq<char>, int)>) -> bool {
    exists|full: Seq<(Seq<char>, int)>|
        #![auto]
        is_ranking(names, full) && r == full.take(
            if limit <= full.len() {
                limit as int
            } else {
                full.len() as int
            },
        )
}

/// The same entries stand in both lists.
pub open spec fn same_entries(a: Seq<(Seq<char>, int)>, b: Seq<(Seq<char>, int)>) -> bool {
    &&& a.len() == b.len()
    &&& forall|i: int| 0 <= i < a.len() ==> b.contains(#[trigger] a[i])
    &&& forall|j: int| 0 <= j < b.len() ==> a.contains(#[trigger] b[j])
}

/// Of two entries with different names, one stands before the other.
pub proof fn lemma_outranks_total(a: (Seq<char>, int), b: (Seq<char>, int))
    requires
        a.0 != b.0,
    ensures
        outranks(a, b) || outranks(b, a),
{
    lemma_precedes_total(a.0, b.0, 0);
}

/// Standing before is transitive.
pub proof fn lemma_outranks_transitive(
    a: (Seq<char>, int),
    b: (Seq<char>, int),
    c: (Seq<char>, int),
)
    requires
        outranks(a, b),
        outranks(b, c),
    ensures
        outranks(a, c),
{
    if a.1 == b.1 && b.1 == c.1 {
        lemma_precedes_transitive(a.0, b.0, c.0, 0);
    }
}

/// No entry stands before itself.
pub proof fn lemma_outranks_irreflexive(a: (Seq<char>, int))
    ensures
        !outranks(a, a),
{
    lemma_precedes_irreflexive(a.0, 0);
}

/// The entries of a ranking carry distinct names.
pub proof fn lemma_ranking_distinct(names: Seq<Seq<char>>, r: Seq<(Seq<char>, int)>)
    requires
        is_ranking(names, r),
    ensures
        distinct_names(r),
{
    assert forall|i: int, j: int| 0 <= i < j < r.len() implies (#[trigger] r[i]).0 != (
    #[trigger] r[j]).0 by {
        if r[i].0 == r[j].0 {
            assert(r[i] == r[j]);
            lemma_outranks_irreflexive(r[i]);
        }
    }
}

/// A list with one entry for each distinct name has as many entries as there are distinct names.
pub proof fn lemma_tally_len(names: Seq<Seq<char>>, t: Seq<(Seq<char>, int)>)
    requires
        is_tally(names, t),
    ensures
        t.len() == names.to_set().len(),
{
    let listed = Seq::new(t.len(), |i: int| t[i].0);
    assert(listed.no_duplicates()) by {
        assert forall|i: int, j: int|
            0 <= i < listed.len() && 0 <= j < listed.len() && i != j implies listed[i]
            != listed[j] by {
            if i < j {
                assert(t[i].0 != t[j].0);
            } else {
                assert(t[j].0 != t[i].0);
            }
        }
    }
    assert(listed.to_set() =~= names.to_set()) by {
        assert forall|x: Seq<char>| listed.to_set().contains(x) implies names.to_set().contains(
            x,
        ) by {
            let i = choose|i: int| 0 <= i < listed.len() && listed[i] == x;
            assert(t[i].1 >= 1);
            let k = lemma_occurrences_witness(names, x);
            assert(names.contains(x));
        }
        assert forall|x: Seq<char>| names.to_set().contains(x) implies listed.to_set().contains(
            x,
        ) by {
            let k = choose|k: int| 0 <= k < names.len() && names[k] == x;
            assert(lists(t, names[k]));
            let i = choose|i: int| 0 <= i < t.len() && (#[trigger] t[i]).0 == names[k];
            assert(listed[i] == x);
            assert(listed.contains(x));
        }
    }
    listed.unique_seq_to_set();
}

/// A ranking has as many entries as there are distinct names.
pub proof fn lemma_ranking_len(names: Seq<Seq<char>>, r: Seq<(Seq<char>, int)>)
    requires
        is_ranking(names, r),
    ensures
        r.len() == names.to_set().len(),
{
    lemma_ranking_distinct(names, r);
    lemma_tally_len(names, r);
}

/// Of two entries, at most one stands before the other.
pub proof fn lemma_outranks_asymmetric(a: (Seq<char>, int), b: (Seq<char>, int))
    requires
        outranks(a, b),
    ensures
        !outranks(b, a),
{
    if outranks(b, a) {
        lemma_outranks_transitive(a, b, a);
        lemma_outranks_irreflexive(a);
    }
}

/// Every entry of one ranking is an entry of every other ranking of the same names.
pub proof fn lemma_ranking_shares_entries(
    names: Seq<Seq<char>>,
    a: Seq<(Seq<char>, int)>,
    b: Seq<(Seq<char>, int)>,
    i: int,
) -> (j: int)
    requires
        is_ranking(names, a),
        is_ranking(names, b),
        0 <= i < a.len(),
    ensures
        0 <= j < b.len(),
        b[j] == a[i],
{
    assert(a[i].1 >= 1);
    let k = lemma_occurrences_witness(names, a[i].0);
    assert(lists(b, names[k]));
    let j = choose|j: int| 0 <= j < b.len() && (#[trigger] b[j]).0 == names[k];
    assert(b[j].1 == occurrences(names, b[j].0));
    j
}

/// Two rankings of the same names agree in their first `n` entries.
pub proof fn lemma_ranking_prefix_unique(
    names: Seq<Seq<char>>,
    a: Seq<(Seq<char>, int)>,
    b: Seq<(Seq<char>, int)>,
    n: int,
)
    requires
        is_ranking(names, a),
        is_ranking(names, b),
        0 <= n <= a.len(),
        a.len() == b.len(),
    ensures
        forall|i: int| 0 <= i < n ==> a[i] == b[i],
    decreases n,
{
    if n > 0 {
        lemma_ranking_prefix_unique(names, a, b, n - 1);
        let i = n - 1;
        if a[i] != b[i] {
            lemma_ranking_distinct(names, a);
            lemma_ranking_distinct(names, b);
            let j = lemma_ranking_shares_entries(names, a, b, i);
            let k = lemma_ranking_shares_entries(names, b, a, i);
            if j < i {
                assert(a[j] == b[j]);
                assert(a[j].0 != a[i].0);
            }
            if k < i {
                assert(a[k] == b[k]);
                assert(b[k].0 != b[i].0);
            }
            assert(outranks(b[i], b[j]));
            assert(outranks(a[i], a[k]));
            lemma_outranks_asymmetric(a[i], b[i]);
        }
    }
}

/// The names decide their ranking: there is no second one.
pub proof fn lemma_ranking_unique(
    names: Seq<Seq<char>>,
    a: Seq<(Seq<char>, int)>,
    b: Seq<(Seq<char>, int)>,
)
    requires
        is_ranking(names, a),
        is_ranking(names, b),
    ensures
        a == b,
{
    lemma_ranking_len(names, a);
    lemma_ranking_len(names, b);
    lemma_ranking_prefix_unique(names, a, b, a.len() as int);
    assert(a =~= b);
}

/// The names and the limit decide the top list: there is no second one.
pub proof fn lemma_top_unique(
    names: Seq<Seq<char>>,
    limit: nat,
    a: Seq<(Seq<char>, int)>,
    b: Seq<(Seq<char>, int)>,
)
    requires
        is_top(names, limit, a),
        is_top(names, limit, b),
    ensures
        a == b,
{
    let full_a = choose|full: Seq<(Seq<char>, int)>|
        #![auto]
        is_ranking(names, full) && a == full.take(
            if limit <= full.len() {
                limit as int
            } else {
                full.len() as int
            },
        );
    let full_b = choose|full: Seq<(Seq<char>, int)>|
        #![auto]
        is_ranking(names, full) && b == full.take(
            if limit <= full.len() {
                limit as int
            } else {
                full.len() as int
            },
        );
    lemma_ranking_unique(names, full_a, full_b);
}

/// Nothing is ranked where there are no names.
pub proof fn lemma_ranking_of_nothing(names: Seq<Seq<char>>, r: Seq<(Seq<char>, int)>)
    requires
        names.len() == 0,
        counts_match(names, r),
    ensures
        r.len() == 0,
{
    if r.len() > 0 {
        assert(r[0].1 >= 1);
        assert(occurrences(names, r[0].0) == 0);
    }
}

/// How the count of a name grows when one more name is taken into account.
pub proof fn lemma_occurrences_step(names: Seq<Seq<char>>, k: int, name: Seq<char>)
    requires
        0 <= k < names.len(),
    ensures
        occurrences(names.take(k + 1), name) == occurrences(names.take(k), name) + if names[k]
            == name {
            1nat
        } else {
            0nat
        },
{
    assert(names.take(k + 1).drop_last() =~= names.take(k));
}

/// Groups `names`: one entry for each distinct name with its number of
/// occurrences, in order of first appearance.
pub fn tally(names: &Vec<String>) -> (t: Vec<NameCount>)
    requires
        names@.len() <= i64::MAX,
    ensures
        is_tally(views(names@), views(t@)),
{
    let ghost all = views(names@);
    let mut t: Vec<NameCount> = Vec::new();
    let mut k: usize = 0;
    while k < names.len()
        invariant
            k <= names@.len(),
            names@.len() <= i64::MAX,
            all == views(names@),
            is_tally(all.take(k as int), views(t@)),
        decreases names@.len() - k,
    {
        let ghost seen = all.take(k as int);
        let ghost before = views(t@);
        let name = names[k].as_str();
        let mut j: usize = 0;
        let mut found = false;
        while j < t.len() && !found
            invariant
                j <= t@.len(),
                name@ == all[k as int],
                forall|m: int| 0 <= m < j ==> t@[m].name@ != name@,
                found ==> j < t@.len() && t@[j as int].name@ == name@,
            decreases t@.len() - j + if found { 0int } else { 1int },
        {
            if same_text(t[j].name.as_str(), name) {
                found = true;
            } else {
                j += 1;
            }
        }
        proof {
            assert forall|x: Seq<char>| true implies #[trigger] occurrences(all.take(k + 1), x)
                == occurrences(seen, x) + if all[k as int] == x {
                1nat
            } else {
                0nat
            } by {
                lemma_occurrences_step(all, k as int, x);
            }
            lemma_occurrences_bounded(seen, name@);
        }
        if found {
            proof {
                assert(before[j as int].1 == occurrences(seen, before[j as int].0));
            }
            let entry = NameCount { name: t[j].name.clone(), count: t[j].count + 1 };
            t[j] = entry;
            proof {
                let after = views(t@);
                assert forall|i: int| 0 <= i < after.len() implies (#[trigger] after[i]).1
                    == occurrences(all.take(k + 1), after[i].0) && after[i].1 >= 1 by {
                    if i != j {
                        assert(after[i] == before[i]);
                        if i < j {
                            assert(before[i].0 != before[j as int].0);
                        } else {
                            assert(before[j as int].0 != before[i].0);
                        }
                    }
                }
                assert forall|i: int, m: int| 0 <= i < m < after.len() implies (
                #[trigger] after[i]).0 != (#[trigger] after[m]).0 by {
                    assert(after[i].0 == before[i].0);
                    assert(after[m].0 == before[m].0);
                }
                assert forall|q: int| 0 <= q < k + 1 implies lists(
                    after,
                    #[trigger] all.take(k + 1)[q],
                ) by {
                    if q < k {
                        assert(seen[q] == all.take(k + 1)[q]);
                        assert(lists(before, seen[q]));
                        let i = choose|i: int|
                            0 <= i < before.len() && (#[trigger] before[i]).0 == seen[q];
                        assert(after[i].0 == before[i].0);
                    } else {
                        assert(after[j as int].0 == name@);
                    }
                }
            }
        } else {
            proof {
                if occurrences(seen, name@) >= 1 {
                    let q = lemma_occurrences_witness(seen, name@);
                    assert(lists(before, seen[q]));
                    let i = choose|i: int|
                        0 <= i < before.len() && (#[trigger] before[i]).0 == seen[q];
                    assert(t@[i].name@ == name@);
                }
            }
            t.push(NameCount { name: names[k].clone(), count: 1 });
            proof {
                let after = views(t@);
                let last = after.len() - 1;
                assert forall|i: int| 0 <= i < after.len() implies (#[trigger] after[i]).1
                    == occurrences(all.take(k + 1), after[i].0) && after[i].1 >= 1 by {
                    if i < last {
                        assert(after[i] == before[i]);
                        assert(t@[i].name@ != name@);
                    }
                }
                assert forall|i: int, m: int| 0 <= i < m < after.len() implies (
                #[trigger] after[i]).0 != (#[trigger] after[m]).0 by {
                    assert(after[i] == before[i]);
                    if m < last {
                        assert(after[m] == before[m]);
                    } else {
                        assert(t@[i].name@ != name@);
                    }
                }
                assert forall|q: int| 0 <= q < k + 1 implies lists(
                    after,
                    #[trigger] all.take(k + 1)[q],
                ) by {
                    if q < k {
                        assert(seen[q] == all.take(k + 1)[q]);
                        assert(lists(before, seen[q]));
                        let i = choose|i: int|
                            0 <= i < before.len() && (#[trigger] before[i]).0 == seen[q];
                        assert(after[i] == before[i]);
                    } else {
                        assert(after[last].0 == name@);
                    }
                }
            }
        }
        k += 1;
    }
    assert(all.take(k as int) =~= all);
    t
}

/// Whether `a` stands before `b` in a ranking.
pub fn stands_before(a: &NameCount, b: &NameCount) -> (r: bool)
    ensures
        r == outranks(a@, b@),
{
    a.count > b.count || (a.count == b.count && comes_before(a.name.as_str(), b.name.as_str()))
}

/// Inserting an entry between those that stand before it and those that it
/// stands before keeps a list ranked.
pub proof fn lemma_insert_ranked(placed: Seq<(Seq<char>, int)>, p: int, x: (Seq<char>, int))
    requires
        ranked(placed),
        0 <= p <= placed.len(),
        forall|q: int| 0 <= q < p ==> outranks(#[trigger] placed[q], x),
        p < placed.len() ==> outranks(x, placed[p]),
    ensures
        ranked(placed.insert(p, x)),
{
    let now = placed.insert(p, x);
    assert forall|i: int, j: int| 0 <= i < j < now.len() implies outranks(
        #[trigger] now[i],
        #[trigger] now[j],
    ) by {
        if j < p {
            assert(now[i] == placed[i] && now[j] == placed[j]);
        } else if j == p {
            assert(now[i] == placed[i]);
        } else if i == p {
            assert(now[j] == placed[j - 1]);
            if j - 1 > p {
                assert(outranks(placed[p], placed[j - 1]));
                lemma_outranks_transitive(x, placed[p], placed[j - 1]);
            }
        } else if i < p {
            assert(now[i] == placed[i] && now[j] == placed[j - 1]);
        } else {
            assert(now[i] == placed[i - 1] && now[j] == placed[j - 1]);
        }
    }
}

/// Adding one entry to both of two lists with the same entries leaves them with the same entries.
pub proof fn lemma_insert_same_entries(
    a: Seq<(Seq<char>, int)>,
    b: Seq<(Seq<char>, int)>,
    p: int,
    x: (Seq<char>, int),
)
    requires
        same_entries(a, b),
        0 <= p <= b.len(),
    ensures
        same_entries(seq![x] + a, b.insert(p, x)),
{
    let a2 = seq![x] + a;
    let b2 = b.insert(p, x);
    assert forall|i: int| 0 <= i < a2.len() implies b2.contains(#[trigger] a2[i]) by {
        if i == 0 {
            assert(b2[p] == a2[i]);
        } else {
            assert(a2[i] == a[i - 1]);
            assert(b.contains(a[i - 1]));
            let j = choose|j: int| 0 <= j < b.len() && b[j] == a[i - 1];
            if j < p {
                assert(b2[j] == a2[i]);
            } else {
                assert(b2[j + 1] == a2[i]);
            }
        }
    }
    assert forall|j: int| 0 <= j < b2.len() implies a2.contains(#[trigger] b2[j]) by {
        if j == p {
            assert(a2[0] == b2[j]);
        } else {
            let q = if j < p {
                j
            } else {
                j - 1
            };
            assert(b2[j] == b[q]);
            assert(a.contains(b[q]));
            let i = choose|i: int| 0 <= i < a.len() && a[i] == b[q];
            assert(a2[i + 1] == b2[j]);
        }
    }
}

/// A ranked list with the entries of a tally is the ranking.
pub proof fn lemma_ranked_tally_is_ranking(
    names: Seq<Seq<char>>,
    t: Seq<(Seq<char>, int)>,
    r: Seq<(Seq<char>, int)>,
)
    requires
        is_tally(names, t),
        same_entries(t, r),
        ranked(r),
    ensures
        is_ranking(names, r),
{
    assert forall|i: int| 0 <= i < r.len() implies (#[trigger] r[i]).1 == occurrences(
        names,
        r[i].0,
    ) && r[i].1 >= 1 by {
        assert(t.contains(r[i]));
        let j = choose|j: int| 0 <= j < t.len() && t[j] == r[i];
        assert(t[j].1 >= 1);
    }
    assert forall|k: int| 0 <= k < names.len() implies lists(r, #[trigger] names[k]) by {
        assert(lists(t, names[k]));
        let j = choose|j: int| 0 <= j < t.len() && (#[trigger] t[j]).0 == names[k];
        assert(r.contains(t[j]));
        let i = choose|i: int| 0 <= i < r.len() && r[i] == t[j];
        assert(r[i].0 == names[k]);
    }
}

/// Puts the entries of a tally into ranking order.
pub fn rank(tallied: Vec<NameCount>) -> (r: Vec<NameCount>)
    requires
        distinct_names(views(tallied@)),
    ensures
        ranked(views(r@)),
        same_entries(views(tallied@), views(r@)),
{
    let ghost orig = views(tallied@);
    let mut rest = tallied;
    let mut r: Vec<NameCount> = Vec::new();
    proof {
        assert(orig.skip(orig.len() as int) =~= Seq::<(Seq<char>, int)>::empty());
        assert(views(r@) =~= Seq::<(Seq<char>, int)>::empty());
        assert(views(rest@) =~= orig.take(rest@.len() as int));
    }
    while rest.len() > 0
        invariant
            distinct_names(orig),
            rest@.len() <= orig.len(),
            views(rest@) == orig.take(rest@.len() as int),
            ranked(views(r@)),
            same_entries(orig.skip(rest@.len() as int), views(r@)),
        decreases rest@.len(),
    {
        let ghost placed = views(r@);
        let ghost left = rest@.len() - 1;
        let ghost later = orig.skip(left + 1);
        proof {
            assert(views(rest@)[left] == orig[left]);
        }
        let entry = rest.pop().unwrap();
        assert(entry@ == orig[left]);
        proof {
            assert forall|q: int| 0 <= q < placed.len() implies (#[trigger] placed[q]).0
                != entry@.0 by {
                assert(later.contains(placed[q]));
                let i = choose|i: int| 0 <= i < later.len() && later[i] == placed[q];
                assert(later[i] == orig[left + 1 + i]);
                assert(orig[left].0 != orig[left + 1 + i].0);
            }
        }
        let mut p: usize = 0;
        while p < r.len() && !stands_before(&entry, &r[p])
            invariant
                p <= r@.len(),
                placed == views(r@),
                forall|q: int| 0 <= q < placed.len() ==> (#[trigger] placed[q]).0 != entry@.0,
                forall|q: int| 0 <= q < p ==> outranks(#[trigger] placed[q], entry@),
            decreases r@.len() - p,
        {
            proof {
                assert(placed[p as int] == r@[p as int]@);
                lemma_outranks_total(entry@, placed[p as int]);
            }
            p += 1;
        }
        proof {
            if p < r@.len() {
                assert(placed[p as int] == r@[p as int]@);
            }
        }
        r.insert(p, entry);
        proof {
            assert(views(r@) =~= placed.insert(p as int, orig[left]));
            lemma_insert_ranked(placed, p as int, orig[left]);
            lemma_insert_same_entries(later, placed, p as int, orig[left]);
            assert(orig.skip(left) =~= seq![orig[left]] + later);
            assert(views(rest@) =~= orig.take(left));
        }
    }
    assert(orig.skip(0) =~= orig);
    r
}

/// The ranking of `names`.
pub fn ranking(names: &Vec<String>) -> (r: Vec<NameCount>)
    requires
        names@.len() <= i64::MAX,
    ensures
        is_ranking(views(names@), views(r@)),
        r@.len() == views(names@).to_set().len(),
{
    let t = tally(names);
    let ghost grouped = views(t@);
    let r = rank(t);
    proof {
        lemma_ranked_tally_is_ranking(views(names@), grouped, views(r@));
        lemma_ranking_len(views(names@), views(r@));
    }
    r
}

} // verus!
