//! The set of modifier keys that are currently held down.

use vstd::prelude::*;
use vstd::string::StringExecFns;
use crate::views::views;
use crate::text::{
    comes_before,
    lemma_precedes_irreflexive,
    lemma_precedes_total,
    lemma_precedes_transitive,
    precedes,
    same_text,
};

verus! {

/// The name belongs to one of the eight modifier keys.
pub open spec fn is_modifier_name(name: Seq<char>) -> bool {
    ||| name == "ShiftLeft"@
    ||| name == "ShiftRight"@
    ||| name == "ControlLeft"@
    ||| name == "ControlRight"@
    ||| name == "Alt"@
    ||| name == "AltGr"@
    ||| name == "MetaLeft"@
    ||| name == "MetaRight"@
}

/// Whether the key of this name is a modifier.
pub fn is_modifier(key_name: &str) -> (r: bool)
    ensures
        r == is_modifier_name(key_name@),
{
    same_text(key_name, "ShiftLeft") || same_text(key_name, "ShiftRight") || same_text(
        key_name,
        "ControlLeft",
    ) || same_text(key_name, "ControlRight") || same_text(key_name, "Alt") || same_text(
        key_name,
        "AltGr",
    ) || same_text(key_name, "MetaLeft") || same_text(key_name, "MetaRight")
}

/// Each name comes before all later ones.
pub open spec fn ascending(names: Seq<Seq<char>>) -> bool {
    forall|i: int, j: int|
        0 <= i < j < names.len() ==> precedes(#[trigger] names[i], #[trigger] names[j])
}

/// Two ascending sequences of the same names agree in their first `n` places.
pub proof fn lemma_ascending_prefix_unique(a: Seq<Seq<char>>, b: Seq<Seq<char>>, n: int)
    requires
        ascending(a),
        ascending(b),
        a.to_set() == b.to_set(),
        0 <= n <= a.len(),
        n <= b.len(),
    ensures
        forall|i: int| 0 <= i < n ==> a[i] == b[i],
    decreases n,
{
    if n > 0 {
        lemma_ascending_prefix_unique(a, b, n - 1);
        let i = n - 1;
        if a[i] != b[i] {
            assert(a.to_set().contains(a[i]));
            assert(b.contains(a[i]));
            let j = choose|j: int| 0 <= j < b.len() && b[j] == a[i];
            assert(b.to_set().contains(b[i]));
            assert(a.contains(b[i]));
            let k = choose|k: int| 0 <= k < a.len() && a[k] == b[i];
            lemma_precedes_irreflexive(a[i], 0);
            lemma_precedes_irreflexive(b[i], 0);
            if j < i {
                assert(precedes(a[j], a[i]));
            }
            if k < i {
                assert(precedes(b[k], b[i]));
            }
            assert(precedes(b[i], b[j]));
            assert(precedes(a[i], a[k]));
            lemma_precedes_transitive(a[i], b[i], a[i], 0);
        }
    }
}

/// The names that are held decide the order in which a combo lists them:
/// two ascending sequences of the same names are one sequence.
pub proof fn lemma_ascending_unique(a: Seq<Seq<char>>, b: Seq<Seq<char>>)
    requires
        ascending(a),
        ascending(b),
        a.to_set() == b.to_set(),
    ensures
        a == b,
{
    assert(a.no_duplicates()) by {
        assert forall|i: int, j: int| 0 <= i < a.len() && 0 <= j < a.len() && i != j implies a[i]
            != a[j] by {
            lemma_precedes_irreflexive(a[i], 0);
            if i < j {
                assert(precedes(a[i], a[j]));
            } else {
                assert(precedes(a[j], a[i]));
            }
        }
    }
    assert(b.no_duplicates()) by {
        assert forall|i: int, j: int| 0 <= i < b.len() && 0 <= j < b.len() && i != j implies b[i]
            != b[j] by {
            lemma_precedes_irreflexive(b[i], 0);
            if i < j {
                assert(precedes(b[i], b[j]));
            } else {
                assert(precedes(b[j], b[i]));
            }
        }
    }
    a.unique_seq_to_set();
    b.unique_seq_to_set();
    lemma_ascending_prefix_unique(a, b, a.len() as int);
    assert(a =~= b);
}

/// The parts in order, with a `+` between neighbours.
pub open spec fn joined(parts: Seq<Seq<char>>) -> Seq<char>
    decreases parts.len(),
{
    if parts.len() == 0 {
        Seq::empty()
    } else if parts.len() == 1 {
        parts[0]
    } else {
        joined(parts.drop_last()) + seq!['+'] + parts.last()
    }
}

/// The names of a set in ascending order.
pub open spec fn in_order(held: Set<Seq<char>>) -> Seq<Seq<char>> {
    choose|names: Seq<Seq<char>>| ascending(names) && names.to_set() == held
}

/// The combo string of a key pressed while the keys of `held` are down: the
/// held names in ascending order, then the key, joined by `+`.
pub open spec fn combo_text(held: Set<Seq<char>>, key_name: Seq<char>) -> Seq<char> {
    joined(in_order(held).push(key_name))
}

/// An ascending sequence is the ascending order of the names that it holds.
pub proof fn lemma_in_order(names: Seq<Seq<char>>)
    requires
        ascending(names),
    ensures
        in_order(names.to_set()) == names,
{
    lemma_ascending_unique(in_order(names.to_set()), names);
}

/// A sequence holds no name exactly when the set of its names is empty.
pub proof fn lemma_no_names(names: Seq<Seq<char>>)
    ensures
        names.len() == 0 <==> names.to_set() == Set::<Seq<char>>::empty(),
{
    if names.len() > 0 {
        assert(names.to_set().contains(names[0]));
    } else {
        assert(names.to_set() =~= Set::<Seq<char>>::empty());
    }
}

/// The set of the keys that are held down.
#[derive(Debug)]
pub struct HeldModifiers {
    /// The names in lexicographic order and without repetition.
    names: Vec<String>,
}

impl View for HeldModifiers {
    type V = Set<Seq<char>>;

    closed spec fn view(&self) -> Set<Seq<char>> {
        views(self.names@).to_set()
    }
}

impl Clone for HeldModifiers {
    fn clone(&self) -> (r: Self)
        ensures
            r@ == self@,
            self.wf() ==> r.wf(),
    {
        let mut names: Vec<String> = Vec::new();
        let mut i: usize = 0;
        while i < self.names.len()
            invariant
                i <= self.names@.len(),
                names@.len() == i,
                forall|k: int| 0 <= k < i ==> names@[k]@ == self.names@[k]@,
            decreases self.names@.len() - i,
        {
            names.push(self.names[i].clone());
            i += 1;
        }
        assert(views(names@) =~= views(self.names@));
        HeldModifiers { names }
    }
}

impl HeldModifiers {
    /// The names as they are kept.
    spec fn listed(&self) -> Seq<Seq<char>> {
        views(self.names@)
    }

    /// The names are kept in ascending order.
    pub closed spec fn wf(&self) -> bool {
        ascending(self.listed())
    }

    /// Nothing held.
    pub fn new() -> (r: Self)
        ensures
            r.wf(),
            r@ == Set::<Seq<char>>::empty(),
    {
        let r = HeldModifiers { names: Vec::new() };
        assert(r@ =~= Set::<Seq<char>>::empty());
        r
    }

    /// Whether nothing is held.
    pub fn is_empty(&self) -> (r: bool)
        ensures
            r == (self@ == Set::<Seq<char>>::empty()),
    {
        proof {
            lemma_no_names(self.listed());
        }
        self.names.len() == 0
    }

    /// How many names are held.
    pub fn len(&self) -> (r: usize)
        requires
            self.wf(),
        ensures
            self@.finite(),
            r == self@.len(),
    {
        proof {
            let names = self.listed();
            assert(names.no_duplicates()) by {
                assert forall|i: int, j: int|
                    0 <= i < names.len() && 0 <= j < names.len() && i != j implies names[i]
                    != names[j] by {
                    lemma_precedes_irreflexive(names[i], 0);
                    if i < j {
                        assert(precedes(names[i], names[j]));
                    } else {
                        assert(precedes(names[j], names[i]));
                    }
                }
            }
            names.unique_seq_to_set();
            vstd::seq_lib::seq_to_set_is_finite(names);
        }
        self.names.len()
    }

    /// Whether `name` is held.
    pub fn contains(&self, name: &str) -> (r: bool)
        ensures
            r == self@.contains(name@),
    {
        let ghost names = self.listed();
        let mut i: usize = 0;
        while i < self.names.len()
            invariant
                i <= self.names@.len(),
                names == self.listed(),
                forall|k: int| 0 <= k < i ==> names[k] != name@,
            decreases self.names@.len() - i,
        {
            if same_text(self.names[i].as_str(), name) {
                assert(names[i as int] == name@);
                return true;
            }
            i += 1;
        }
        false
    }

    /// Takes `name` into the set.
    pub fn press(&mut self, name: &str)
        requires
            old(self).wf(),
        ensures
            final(self).wf(),
            final(self)@ == old(self)@.insert(name@),
    {
        let ghost before = self.listed();
        let mut p: usize = 0;
        while p < self.names.len() && comes_before(self.names[p].as_str(), name)
            invariant
                p <= self.names@.len(),
                self.listed() == before,
                forall|k: int| 0 <= k < p ==> precedes(#[trigger] before[k], name@),
            decreases self.names@.len() - p,
        {
            p += 1;
        }
        if p < self.names.len() && same_text(self.names[p].as_str(), name) {
            proof {
                assert(before[p as int] == name@);
                assert(before.to_set().insert(name@) =~= before.to_set());
            }
            return ;
        }
        self.names.insert(p, name.to_owned());
        proof {
            let after = self.listed();
            assert(after =~= before.insert(p as int, name@));
            assert forall|i: int, j: int| 0 <= i < j < after.len() implies precedes(
                #[trigger] after[i],
                #[trigger] after[j],
            ) by {
                if j < p {
                    assert(after[i] == before[i] && after[j] == before[j]);
                } else if j == p {
                    assert(after[i] == before[i]);
                } else if i == p {
                    assert(after[j] == before[j - 1]);
                    assert(before[p as int] != name@);
                    lemma_precedes_total(name@, before[p as int], 0);
                    if j - 1 > p {
                        lemma_precedes_transitive(name@, before[p as int], before[j - 1], 0);
                    }
                } else if i < p {
                    assert(after[i] == before[i] && after[j] == before[j - 1]);
                } else {
                    assert(after[i] == before[i - 1] && after[j] == before[j - 1]);
                }
            }
            assert forall|x: Seq<char>| after.to_set().contains(x) <==> before.to_set().insert(
                name@,
            ).contains(x) by {
                if after.contains(x) {
                    let i = choose|i: int| 0 <= i < after.len() && after[i] == x;
                    if i < p {
                        assert(before[i] == x);
                    } else if i > p {
                        assert(before[i - 1] == x);
                    }
                }
                if before.contains(x) {
                    let i = choose|i: int| 0 <= i < before.len() && before[i] == x;
                    if i < p {
                        assert(after[i] == x);
                    } else {
                        assert(after[i + 1] == x);
                    }
                }
                if x == name@ {
                    assert(after[p as int] == x);
                }
            }
            assert(after.to_set() =~= before.to_set().insert(name@));
        }
    }

    /// Takes `name` out of the set.
    pub fn release(&mut self, name: &str)
        requires
            old(self).wf(),
        ensures
            final(self).wf(),
            final(self)@ == old(self)@.remove(name@),
    {
        let ghost before = self.listed();
        let mut p: usize = 0;
        while p < self.names.len() && !same_text(self.names[p].as_str(), name)
            invariant
                p <= self.names@.len(),
                self.listed() == before,
                forall|k: int| 0 <= k < p ==> #[trigger] before[k] != name@,
            decreases self.names@.len() - p,
        {
            p += 1;
        }
        if p == self.names.len() {
            proof {
                assert(!before.contains(name@));
                assert(before.to_set().remove(name@) =~= before.to_set());
            }
            return ;
        }
        self.names.remove(p);
        proof {
            let after = self.listed();
            assert(after =~= before.remove(p as int));
            assert(before[p as int] == name@);
            assert forall|i: int, j: int| 0 <= i < j < after.len() implies precedes(
                #[trigger] after[i],
                #[trigger] after[j],
            ) by {
                let bi = if i < p { i } else { i + 1 };
                let bj = if j < p { j } else { j + 1 };
                assert(after[i] == before[bi] && after[j] == before[bj]);
            }
            assert forall|x: Seq<char>| after.to_set().contains(x) <==> before.to_set().remove(
                name@,
            ).contains(x) by {
                if after.contains(x) {
                    let i = choose|i: int| 0 <= i < after.len() && after[i] == x;
                    let bi = if i < p { i } else { i + 1 };
                    assert(before[bi] == x);
                    if x == name@ {
                        lemma_precedes_irreflexive(x, 0);
                        if bi < p {
                            assert(precedes(before[bi], before[p as int]));
                        } else {
                            assert(precedes(before[p as int], before[bi]));
                        }
                    }
                }
                if before.contains(x) && x != name@ {
                    let i = choose|i: int| 0 <= i < before.len() && before[i] == x;
                    if i < p {
                        assert(after[i] == x);
                    } else {
                        assert(after[i - 1] == x);
                    }
                }
            }
            assert(after.to_set() =~= before.to_set().remove(name@));
        }
    }

    /// The combo string of `key_name` pressed while these names are held.
    pub fn combo_with(&self, key_name: &str) -> (combo: String)
        requires
            self.wf(),
        ensures
            combo@ == combo_text(self@, key_name@),
    {
        let ghost held = self.listed();
        proof {
            lemma_in_order(held);
        }
        let mut combo = String::new();
        let mut i: usize = 0;
        proof {
            reveal_strlit("+");
            assert("+"@ =~= seq!['+']);
        }
        while i < self.names.len()
            invariant
                i <= self.names@.len(),
                held == self.listed(),
                "+"@ == seq!['+'],
                combo@ == joined(held.take(i as int)),
            decreases self.names@.len() - i,
        {
            proof {
                assert(held.take(i + 1).drop_last() =~= held.take(i as int));
                assert(held.take(i + 1).last() == self.names@[i as int]@);
                if i == 0 {
                    assert(combo@ + self.names@[0]@ =~= self.names@[0]@);
                }
            }
            if i > 0 {
                combo.append("+");
            }
            combo.append(self.names[i].as_str());
            i += 1;
        }
        proof {
            assert(held.take(i as int) =~= held);
            assert(held.push(key_name@).drop_last() =~= held);
            if i == 0 {
                assert(combo@ + key_name@ =~= key_name@);
            }
        }
        if i > 0 {
            combo.append("+");
        }
        combo.append(key_name);
        combo
    }
}

} // verus!
