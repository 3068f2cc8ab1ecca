//! A map from names to values that is walked in ascending order of the names.

use crate::text::{lemma_precedes_irreflexive, lemma_precedes_transitive, precedes, rank, Rank};
use vstd::prelude::*;

verus! {

/// The names of `pairs` ascend strictly.
pub open spec fn ascending<V>(pairs: Seq<(Seq<char>, V)>) -> bool {
    forall|i: int, j: int|
        0 <= i < j < pairs.len() ==> precedes(#[trigger] pairs[i].0, #[trigger] pairs[j].0)
}

/// A position of `pairs` at which `name` stands.
pub open spec fn position_of<V>(pairs: Seq<(Seq<char>, V)>, name: Seq<char>) -> int {
    choose|i: int| 0 <= i < pairs.len() && #[trigger] pairs[i].0 == name
}

/// The map that `pairs` lists.
pub open spec fn map_of<V>(pairs: Seq<(Seq<char>, V)>) -> Map<Seq<char>, V> {
    Map::new(
        |name: Seq<char>| exists|i: int| 0 <= i < pairs.len() && #[trigger] pairs[i].0 == name,
        |name: Seq<char>| pairs[position_of(pairs, name)].1,
    )
}

/// In a list whose names ascend no name occurs twice.
pub proof fn lemma_ascending_unique<V>(pairs: Seq<(Seq<char>, V)>, i: int, j: int)
    requires
        ascending(pairs),
        0 <= i < pairs.len(),
        0 <= j < pairs.len(),
        pairs[i].0 == pairs[j].0,
    ensures
        i == j,
{
    lemma_precedes_irreflexive(pairs[i].0);
    if i < j {
        assert(precedes(pairs[i].0, pairs[j].0));
    } else if j < i {
        assert(precedes(pairs[j].0, pairs[i].0));
    }
}

/// A list whose names ascend and the map that it lists hold the same pairs.
pub proof fn lemma_map_of<V>(pairs: Seq<(Seq<char>, V)>)
    requires
        ascending(pairs),
    ensures
        forall|i: int|
            0 <= i < pairs.len() ==> map_of(pairs).contains_key(#[trigger] pairs[i].0) && map_of(
                pairs,
            )[pairs[i].0] == pairs[i].1,
{
    assert forall|i: int| 0 <= i < pairs.len() implies map_of(pairs).contains_key(
        #[trigger] pairs[i].0,
    ) && map_of(pairs)[pairs[i].0] == pairs[i].1 by {
        let name = pairs[i].0;
        lemma_ascending_unique(pairs, i, position_of(pairs, name));
    }
}

/// The map that a list with ascending names lists has as many entries as the list.
pub proof fn lemma_map_len<V>(pairs: Seq<(Seq<char>, V)>)
    requires
        ascending(pairs),
    ensures
        map_of(pairs).dom().finite(),
        map_of(pairs).len() == pairs.len(),
{
    let names = pairs.map_values(|p: (Seq<char>, V)| p.0);
    assert forall|i: int, j: int|
        0 <= i < names.len() && 0 <= j < names.len() && i != j implies names[i] != names[j] by {
        if names[i] == names[j] {
            lemma_ascending_unique(pairs, i, j);
        }
    }
    names.unique_seq_to_set();
    assert forall|n: Seq<char>| names.to_set().contains(n) == #[trigger] map_of(
        pairs,
    ).dom().contains(n) by {
        if names.to_set().contains(n) {
            let k = choose|k: int| 0 <= k < names.len() && names[k] == n;
            assert(pairs[k].0 == n);
        }
        if map_of(pairs).dom().contains(n) {
            let k = choose|k: int| 0 <= k < pairs.len() && #[trigger] pairs[k].0 == n;
            assert(names[k] == n);
        }
    }
    assert(map_of(pairs).dom() =~= names.to_set());
}

/// A map from names to values. Each name occurs once, and the entries are kept in ascending order
/// of their names.
#[derive(Debug)]
pub struct NameMap<V> {
    entries: Vec<(String, V)>,
}

/// The entries of a vector, each name as a sequence of characters.
spec fn pairs_of<V>(entries: Seq<(String, V)>) -> Seq<(Seq<char>, V)> {
    entries.map_values(|e: (String, V)| (e.0@, e.1))
}

impl<V> View for NameMap<V> {
    type V = Map<Seq<char>, V>;

    open spec fn view(&self) -> Map<Seq<char>, V> {
        map_of(self.pairs())
    }
}

impl<V: DeepView> DeepView for NameMap<V> {
    type V = Map<Seq<char>, V::V>;

    open spec fn deep_view(&self) -> Map<Seq<char>, V::V> {
        self@.map_values(|v: V| v.deep_view())
    }
}

impl<V: Clone> Clone for NameMap<V> {
    fn clone(&self) -> (r: Self)
        ensures
            r.pairs().len() == self.pairs().len(),
            forall|i: int|
                0 <= i < r.pairs().len() ==> (#[trigger] r.pairs()[i]).0 == self.pairs()[i].0
                    && cloned(self.pairs()[i].1, r.pairs()[i].1),
    {
        proof {
            use_type_invariant(self);
        }
        let mut entries: Vec<(String, V)> = Vec::new();
        let mut i: usize = 0;
        while i < self.entries.len()
            invariant
                i <= self.entries@.len(),
                entries@.len() == i,
                forall|j: int|
                    0 <= j < i ==> (#[trigger] entries@[j]).0@ == self.entries@[j].0@ && cloned(
                        self.entries@[j].1,
                        entries@[j].1,
                    ),
            decreases self.entries@.len() - i,
        {
            entries.push((self.entries[i].0.clone(), self.entries[i].1.clone()));
            i = i + 1;
        }
        proof {
            let copied = pairs_of(entries@);
            assert forall|a: int, b: int| 0 <= a < b < copied.len() implies precedes(
                #[trigger] copied[a].0,
                #[trigger] copied[b].0,
            ) by {
                assert(copied[a].0 == self.pairs()[a].0);
                assert(copied[b].0 == self.pairs()[b].0);
            }
        }
        NameMap { entries }
    }
}

impl<V> NameMap<V> {
    /// The entries in the order in which the map is walked.
    pub closed spec fn pairs(&self) -> Seq<(Seq<char>, V)> {
        pairs_of(self.entries@)
    }

    /// The names ascend strictly.
    #[verifier::type_invariant]
    pub open spec fn wf(&self) -> bool {
        ascending(self.pairs())
    }

    /// An empty map.
    pub fn new() -> (r: Self)
        ensures
            r.wf(),
            r.pairs() == Seq::<(Seq<char>, V)>::empty(),
            r@ == Map::<Seq<char>, V>::empty(),
    {
        let r = NameMap { entries: Vec::new() };
        assert(r.pairs() =~= Seq::<(Seq<char>, V)>::empty());
        assert(r@ =~= Map::<Seq<char>, V>::empty());
        r
    }

    /// The number of entries.
    pub fn len(&self) -> (r: usize)
        ensures
            r == self.pairs().len(),
            r == self@.len(),
            self.wf(),
    {
        proof {
            use_type_invariant(self);
            lemma_map_len(self.pairs());
        }
        self.entries.len()
    }

    /// Tells whether the map has no entry.
    pub fn is_empty(&self) -> (r: bool)
        ensures
            r == (self.pairs().len() == 0),
            self.wf(),
    {
        self.len() == 0
    }

    /// The name of the entry at position `i` of the walk.
    pub fn name_at(&self, i: usize) -> (r: &String)
        requires
            i < self.pairs().len(),
        ensures
            r@ == self.pairs()[i as int].0,
    {
        &self.entries[i].0
    }

    /// The value of the entry at position `i` of the walk.
    pub fn value_at(&self, i: usize) -> (r: &V)
        requires
            i < self.pairs().len(),
        ensures
            *r == self.pairs()[i as int].1,
    {
        &self.entries[i].1
    }

    /// The first position whose name does not come before `name`.
    fn lower_bound(&self, name: &str) -> (r: usize)
        ensures
            r <= self.entries@.len(),
            forall|i: int| 0 <= i < r ==> precedes(#[trigger] self.entries@[i].0@, name@),
            forall|i: int|
                r <= i < self.entries@.len() ==> !precedes(#[trigger] self.entries@[i].0@, name@),
    {
        proof {
            use_type_invariant(self);
        }
        let mut low: usize = 0;
        let mut high: usize = self.entries.len();
        while low < high
            invariant
                self.wf(),
                low <= high <= self.entries@.len(),
                forall|i: int| 0 <= i < low ==> precedes(#[trigger] self.entries@[i].0@, name@),
                forall|i: int|
                    high <= i < self.entries@.len() ==> !precedes(
                        #[trigger] self.entries@[i].0@,
                        name@,
                    ),
            decreases high - low,
        {
            let mid: usize = low + (high - low) / 2;
            match rank(self.entries[mid].0.as_str(), name) {
                Rank::Before => {
                    assert forall|i: int| 0 <= i < mid + 1 implies precedes(
                        #[trigger] self.entries@[i].0@,
                        name@,
                    ) by {
                        if i < mid {
                            assert(precedes(self.pairs()[i].0, self.pairs()[mid as int].0));
                            lemma_precedes_transitive(
                                self.entries@[i].0@,
                                self.entries@[mid as int].0@,
                                name@,
                            );
                        }
                    }
                    low = mid + 1;
                },
                _ => {
                    assert forall|i: int| mid <= i < self.entries@.len() implies !precedes(
                        #[trigger] self.entries@[i].0@,
                        name@,
                    ) by {
                        if mid < i && precedes(self.entries@[i].0@, name@) {
                            assert(precedes(self.pairs()[mid as int].0, self.pairs()[i].0));
                            lemma_precedes_transitive(
                                self.entries@[mid as int].0@,
                                self.entries@[i].0@,
                                name@,
                            );
                        }
                    }
                    high = mid;
                },
            }
        }
        low
    }

    /// The value that `name` maps to.
    pub fn get(&self, name: &str) -> (r: Option<&V>)
        ensures
            self.wf(),
            r is Some <==> self@.contains_key(name@),
            r matches Some(v) ==> *v == self@[name@],
    {
        proof {
            use_type_invariant(self);
            lemma_map_of(self.pairs());
        }
        let i: usize = self.lower_bound(name);
        if i < self.entries.len() {
            match rank(self.entries[i].0.as_str(), name) {
                Rank::Same => {
                    assert(self.pairs()[i as int].0 == name@);
                    return Some(&self.entries[i].1);
                },
                _ => {},
            }
        }
        assert(!self@.contains_key(name@)) by {
            if self@.contains_key(name@) {
                let k = choose|k: int|
                    0 <= k < self.pairs().len() && #[trigger] self.pairs()[k].0 == name@;
                assert(self.entries@[k].0@ == name@);
                lemma_precedes_irreflexive(name@);
                assert(k >= i);
                if k > i {
                    assert(precedes(self.pairs()[i as int].0, self.pairs()[k].0));
                    assert(precedes(self.entries@[i as int].0@, name@));
                }
            }
        }
        None
    }

    /// Tells whether the map has an entry under `name`.
    pub fn contains_key(&self, name: &str) -> (r: bool)
        ensures
            self.wf(),
            r == self@.contains_key(name@),
    {
        self.get(name).is_some()
    }

    /// Puts `value` under `name`, in place of what stood there.
    pub fn insert(&mut self, name: String, value: V)
        ensures
            final(self).wf(),
            final(self)@ == old(self)@.insert(name@, value),
    {
        proof {
            use_type_invariant(&*self);
            lemma_map_of(self.pairs());
        }
        let i: usize = self.lower_bound(name.as_str());
        let taken: bool = if i < self.entries.len() {
            match rank(self.entries[i].0.as_str(), name.as_str()) {
                Rank::Same => true,
                _ => false,
            }
        } else {
            false
        };
        let ghost before = self.pairs();
        let ghost key = name@;
        let mut entries: Vec<(String, V)> = Vec::new();
        assert(ascending(pairs_of(entries@)));
        std::mem::swap(&mut entries, &mut self.entries);
        if taken {
            entries.set(i, (name, value));
            proof {
                lemma_replaced(before, i as int, key, value);
                assert(pairs_of(entries@) =~= before.update(i as int, (key, value)));
            }
        } else {
            entries.insert(i, (name, value));
            proof {
                assert forall|j: int| i <= j < before.len() implies precedes(
                    key,
                    #[trigger] before[j].0,
                ) by {
                    crate::text::lemma_precedes_total(key, before[i as int].0);
                    if i < j {
                        assert(precedes(before[i as int].0, before[j].0));
                        lemma_precedes_transitive(key, before[i as int].0, before[j].0);
                    }
                }
                lemma_inserted(before, i as int, key, value);
                assert(pairs_of(entries@) =~= before.insert(i as int, (key, value)));
            }
        }
        self.entries = entries;
    }
}

/// Replacing the value at a position puts it under the name that stands there.
proof fn lemma_replaced<V>(pairs: Seq<(Seq<char>, V)>, i: int, name: Seq<char>, value: V)
    requires
        ascending(pairs),
        0 <= i < pairs.len(),
        pairs[i].0 == name,
    ensures
        ascending(pairs.update(i, (name, value))),
        map_of(pairs.update(i, (name, value))) == map_of(pairs).insert(name, value),
{
    let after = pairs.update(i, (name, value));
    assert forall|a: int, b: int| 0 <= a < b < after.len() implies precedes(
        #[trigger] after[a].0,
        #[trigger] after[b].0,
    ) by {
        assert(precedes(pairs[a].0, pairs[b].0));
    }
    lemma_map_of(pairs);
    lemma_map_of(after);
    assert forall|n: Seq<char>| #[trigger]
        map_of(after).contains_key(n) == map_of(pairs).insert(name, value).contains_key(n) by {
        if map_of(after).contains_key(n) {
            let k = choose|k: int| 0 <= k < after.len() && #[trigger] after[k].0 == n;
            assert(pairs[k].0 == n);
        }
        if map_of(pairs).contains_key(n) {
            let k = choose|k: int| 0 <= k < pairs.len() && #[trigger] pairs[k].0 == n;
            assert(after[k].0 == n);
        }
        assert(after[i].0 == name);
    }
    assert forall|n: Seq<char>| #[trigger]
        map_of(after).contains_key(n) implies map_of(after)[n] == map_of(pairs).insert(
        name,
        value,
    )[n] by {
        let k = choose|k: int| 0 <= k < after.len() && #[trigger] after[k].0 == n;
        assert(map_of(after)[after[k].0] == after[k].1);
        if k != i {
            assert(map_of(pairs)[pairs[k].0] == pairs[k].1);
            if n == name {
                lemma_ascending_unique(pairs, i, k);
            }
        }
    }
    assert(map_of(after) =~= map_of(pairs).insert(name, value));
}

/// Inserting a new name where it belongs adds it to the map.
proof fn lemma_inserted<V>(pairs: Seq<(Seq<char>, V)>, i: int, name: Seq<char>, value: V)
    requires
        ascending(pairs),
        0 <= i <= pairs.len(),
        forall|j: int| 0 <= j < i ==> precedes(#[trigger] pairs[j].0, name),
        forall|j: int| i <= j < pairs.len() ==> precedes(name, #[trigger] pairs[j].0),
    ensures
        ascending(pairs.insert(i, (name, value))),
        map_of(pairs.insert(i, (name, value))) == map_of(pairs).insert(name, value),
{
    let after = pairs.insert(i, (name, value));
    assert forall|a: int, b: int| 0 <= a < b < after.len() implies precedes(
        #[trigger] after[a].0,
        #[trigger] after[b].0,
    ) by {
        let a0 = if a < i { a } else { a - 1 };
        let b0 = if b < i { b } else { b - 1 };
        if a != i && b != i {
            assert(precedes(pairs[a0].0, pairs[b0].0));
        } else if a == i {
            assert(after[b] == pairs[b0]);
        } else {
            assert(after[a] == pairs[a0]);
        }
    }
    lemma_map_of(pairs);
    lemma_map_of(after);
    assert(after[i].0 == name);
    assert forall|n: Seq<char>| #[trigger]
        map_of(after).contains_key(n) == map_of(pairs).insert(name, value).contains_key(n) by {
        if map_of(after).contains_key(n) {
            let k = choose|k: int| 0 <= k < after.len() && #[trigger] after[k].0 == n;
            if k < i {
                assert(pairs[k].0 == n);
            } else if k > i {
                assert(pairs[k - 1].0 == n);
            }
        }
        if map_of(pairs).contains_key(n) {
            let k = choose|k: int| 0 <= k < pairs.len() && #[trigger] pairs[k].0 == n;
            if k < i {
                assert(after[k].0 == n);
            } else {
                assert(after[k + 1].0 == n);
            }
        }
    }
    assert forall|n: Seq<char>| #[trigger]
        map_of(after).contains_key(n) implies map_of(after)[n] == map_of(pairs).insert(
        name,
        value,
    )[n] by {
        let k = choose|k: int| 0 <= k < after.len() && #[trigger] after[k].0 == n;
        assert(map_of(after)[after[k].0] == after[k].1);
        lemma_precedes_irreflexive(name);
        if k < i {
            assert(map_of(pairs)[pairs[k].0] == pairs[k].1);
            assert(n != name);
        } else if k > i {
            assert(map_of(pairs)[pairs[k - 1].0] == pairs[k - 1].1);
            assert(n != name);
        }
    }
    assert(map_of(after) =~= map_of(pairs).insert(name, value));
}

} // verus!
