//! A map from names to values, kept as a list of entries with distinct
//! names: the labels of a program and the variables of a block.
use vstd::prelude::*;

use crate::compiler::chars::str_eq;

verus! {

/// The map that a list of entries stands for: a later entry overrides an
/// earlier one with the same name.
pub open spec fn entries_map<V>(s: Seq<(Seq<char>, V)>) -> Map<Seq<char>, V>
    decreases s.len(),
{
    if s.len() == 0 {
        Map::empty()
    } else {
        entries_map(s.drop_last()).insert(s.last().0, s.last().1)
    }
}

/// No two entries have the same name.
pub open spec fn distinct_names<V>(s: Seq<(Seq<char>, V)>) -> bool {
    forall|i: int, j: int| 0 <= i < j < s.len() ==> s[i].0 != s[j].0
}

/// A name is in the map exactly when an entry has it.
proof fn lemma_entries_dom<V>(s: Seq<(Seq<char>, V)>, k: Seq<char>)
    ensures
        entries_map(s).contains_key(k) <==> exists|i: int| 0 <= i < s.len() && s[i].0 == k,
    decreases s.len(),
{
    if s.len() > 0 {
        let t = s.drop_last();
        lemma_entries_dom(t, k);
        if entries_map(t).contains_key(k) {
            let i = choose|i: int| 0 <= i < t.len() && t[i].0 == k;
            assert(s[i].0 == k);
        }
        if exists|i: int| 0 <= i < s.len() && s[i].0 == k {
            let i = choose|i: int| 0 <= i < s.len() && s[i].0 == k;
            if i < t.len() {
                assert(t[i].0 == k);
            }
        }
    }
}

/// The last entry with a name gives its value.
proof fn lemma_entries_at<V>(s: Seq<(Seq<char>, V)>, i: int)
    requires
        0 <= i < s.len(),
        forall|j: int| i < j < s.len() ==> s[j].0 != s[i].0,
    ensures
        entries_map(s).contains_key(s[i].0),
        entries_map(s)[s[i].0] == s[i].1,
    decreases s.len(),
{
    let t = s.drop_last();
    if i < s.len() - 1 {
        assert forall|j: int| i < j < t.len() implies t[j].0 != t[i].0 by {
            assert(s[j].0 != s[i].0);
        }
        lemma_entries_at(t, i);
        assert(s[s.len() - 1].0 != s[i].0);
    }
}

/// Replacing the entry of a name changes the value of that name only.
proof fn lemma_entries_update<V>(s: Seq<(Seq<char>, V)>, i: int, k: Seq<char>, v: V)
    requires
        distinct_names(s),
        0 <= i < s.len(),
        s[i].0 == k,
    ensures
        entries_map(s.update(i, (k, v))) == entries_map(s).insert(k, v),
        distinct_names(s.update(i, (k, v))),
{
    let u = s.update(i, (k, v));
    let m = entries_map(s).insert(k, v);
    assert forall|key: Seq<char>| #[trigger] entries_map(u).contains_key(key) == m.contains_key(key) by {
        lemma_entries_dom(u, key);
        lemma_entries_dom(s, key);
        if key != k {
            if entries_map(s).contains_key(key) {
                let w = choose|w: int| 0 <= w < s.len() && s[w].0 == key;
                assert(u[w].0 == key);
            }
            if entries_map(u).contains_key(key) {
                let w = choose|w: int| 0 <= w < u.len() && u[w].0 == key;
                assert(s[w].0 == key);
            }
        } else {
            assert(u[i].0 == key);
        }
    }
    assert forall|key: Seq<char>| entries_map(u).contains_key(key) implies #[trigger] entries_map(u)[key]
        == m[key] by {
        if key == k {
            assert forall|j: int| i < j < u.len() implies u[j].0 != u[i].0 by {
                assert(s[j].0 != s[i].0);
            }
            lemma_entries_at(u, i);
        } else {
            lemma_entries_dom(u, key);
            let w = choose|w: int| 0 <= w < u.len() && u[w].0 == key;
            assert(w != i);
            assert forall|j: int| w < j < u.len() implies u[j].0 != u[w].0 by {
                if j != i {
                    assert(s[j].0 != s[w].0);
                }
            }
            lemma_entries_at(u, w);
            assert forall|j: int| w < j < s.len() implies s[j].0 != s[w].0 by {}
            lemma_entries_at(s, w);
        }
    }
    assert(entries_map(u) =~= m);
}

/// A map from names to values.
#[derive(Debug)]
pub struct NameMap<V> {
    entries: Vec<(String, V)>,
}

impl<V> NameMap<V> {
    /// The entries as plain values.
    pub closed spec fn pairs(&self) -> Seq<(Seq<char>, V)> {
        self.entries@.map_values(|e: (String, V)| (e.0@, e.1))
    }

    /// No two entries have the same name.
    pub closed spec fn wf(&self) -> bool {
        distinct_names(self.pairs())
    }
}

impl<V> View for NameMap<V> {
    type V = Map<Seq<char>, V>;

    closed spec fn view(&self) -> Map<Seq<char>, V> {
        entries_map(self.pairs())
    }
}

impl<V: Copy> NameMap<V> {
    /// An empty map.
    pub fn new() -> (r: NameMap<V>)
        ensures
            r.wf(),
            r@ == Map::<Seq<char>, V>::empty(),
    {
        let r = NameMap { entries: Vec::new() };
        assert(r.pairs() =~= seq![]);
        r
    }

    /// The index of the entry with the name, if there is one.
    fn find(&self, key: &str) -> (r: Option<usize>)
        ensures
            match r {
                Some(i) => i < self.pairs().len() && self.pairs()[i as int].0 == key@,
                None => forall|i: int| 0 <= i < self.pairs().len() ==> self.pairs()[i].0 != key@,
            },
    {
        let mut i: usize = 0;
        while i < self.entries.len()
            invariant
                i <= self.entries@.len(),
                forall|j: int| 0 <= j < i ==> self.pairs()[j].0 != key@,
            decreases self.entries@.len() - i,
        {
            assert(self.pairs()[i as int] == (self.entries@[i as int].0@, self.entries@[i as int].1));
            if str_eq(self.entries[i].0.as_str(), key) {
                return Some(i);
            }
            i += 1;
        }
        None
    }

    /// The value of a name.
    pub fn get(&self, key: &str) -> (r: Option<V>)
        requires
            self.wf(),
        ensures
            r == (if self@.contains_key(key@) {
                Some(self@[key@])
            } else {
                None::<V>
            }),
    {
        proof {
            lemma_entries_dom(self.pairs(), key@);
        }
        match self.find(key) {
            Some(i) => {
                assert(self.pairs()[i as int] == (self.entries@[i as int].0@, self.entries@[i as int].1));
                assert forall|j: int| i < j < self.pairs().len() implies self.pairs()[j].0
                    != self.pairs()[i as int].0 by {}
                proof {
                    lemma_entries_at(self.pairs(), i as int);
                }
                Some(self.entries[i].1)
            },
            None => None,
        }
    }

    /// Whether a name is in the map.
    pub fn contains_key(&self, key: &str) -> (r: bool)
        requires
            self.wf(),
        ensures
            r == self@.contains_key(key@),
    {
        self.get(key).is_some()
    }

    /// Gives a name a value, replacing the one it had.
    pub fn insert(&mut self, key: String, value: V)
        requires
            old(self).wf(),
        ensures
            final(self).wf(),
            final(self)@ == old(self)@.insert(key@, value),
    {
        match self.find(key.as_str()) {
            Some(i) => {
                let ghost s = self.pairs();
                let ghost k = key@;
                self.entries.set(i, (key, value));
                proof {
                    lemma_entries_update(s, i as int, k, value);
                    assert(self.pairs() =~= s.update(i as int, (k, value)));
                }
            },
            None => {
                let ghost s = self.pairs();
                let ghost k = key@;
                self.entries.push((key, value));
                proof {
                    assert(self.pairs() =~= s.push((k, value)));
                    assert(self.pairs().drop_last() =~= s);
                }
            },
        }
    }

    /// A copy of the map.
    pub fn copy(&self) -> (r: NameMap<V>)
        requires
            self.wf(),
        ensures
            r.wf(),
            r@ == self@,
    {
        let mut entries: Vec<(String, V)> = Vec::new();
        let mut i: usize = 0;
        while i < self.entries.len()
            invariant
                i <= self.entries@.len(),
                entries@.map_values(|e: (String, V)| (e.0@, e.1)) == self.pairs().take(i as int),
            decreases self.entries@.len() - i,
        {
            let ghost before = entries@;
            let name = self.entries[i].0.clone();
            entries.push((name, self.entries[i].1));
            assert(self.pairs()[i as int] == (self.entries@[i as int].0@, self.entries@[i as int].1));
            assert(entries@.map_values(|e: (String, V)| (e.0@, e.1)) =~= before.map_values(
                |e: (String, V)| (e.0@, e.1),
            ).push(self.pairs()[i as int]));
            assert(self.pairs().take(i + 1) =~= self.pairs().take(i as int).push(self.pairs()[i as int]));
            i += 1;
        }
        let r = NameMap { entries };
        assert(self.pairs().take(self.pairs().len() as int) =~= self.pairs());
        assert(r.pairs() =~= self.pairs());
        r
    }

    /// Adds all entries of another map, replacing the values of names that
    /// are in both.
    pub fn extend(&mut self, other: &NameMap<V>)
        requires
            old(self).wf(),
            other.wf(),
        ensures
            final(self).wf(),
            final(self)@ == old(self)@.union_prefer_right(other@),
    {
        let ghost t = other.pairs();
        let mut i: usize = 0;
        assert(entries_map(t.take(0)) =~= Map::<Seq<char>, V>::empty());
        assert(self@ =~= old(self)@.union_prefer_right(entries_map(t.take(0))));
        while i < other.entries.len()
            invariant
                i <= other.entries@.len(),
                t == other.pairs(),
                self.wf(),
                self@ == old(self)@.union_prefer_right(entries_map(t.take(i as int))),
            decreases other.entries@.len() - i,
        {
            let name = other.entries[i].0.clone();
            let value = other.entries[i].1;
            assert(t[i as int] == (other.entries@[i as int].0@, other.entries@[i as int].1));
            let ghost before = self@;
            self.insert(name, value);
            assert(t.take(i + 1).drop_last() =~= t.take(i as int));
            assert(self@ =~= old(self)@.union_prefer_right(entries_map(t.take(i + 1))));
            i += 1;
        }
        assert(t.take(t.len() as int) =~= t);
    }

    /// The names and values, in the order they were first given.
    pub fn entries(&self) -> (r: &Vec<(String, V)>)
        ensures
            r@.map_values(|e: (String, V)| (e.0@, e.1)) == self.pairs(),
    {
        &self.entries
    }
}

/// Every value of a list of entries increased by `offset`.
pub open spec fn shifted(s: Seq<(Seq<char>, usize)>, offset: usize) -> Seq<(Seq<char>, usize)> {
    s.map_values(|e: (Seq<char>, usize)| (e.0, (e.1 + offset) as usize))
}

proof fn lemma_entries_shifted(s: Seq<(Seq<char>, usize)>, offset: usize)
    requires
        forall|i: int| 0 <= i < s.len() ==> s[i].1 + offset <= usize::MAX,
    ensures
        entries_map(shifted(s, offset)).dom() == entries_map(s).dom(),
        forall|k: Seq<char>| #[trigger]
            entries_map(s).contains_key(k) ==> entries_map(shifted(s, offset))[k] == entries_map(
                s,
            )[k] + offset,
    decreases s.len(),
{
    if s.len() > 0 {
        lemma_entries_shifted(s.drop_last(), offset);
        assert(shifted(s, offset).drop_last() =~= shifted(s.drop_last(), offset));
        assert(entries_map(shifted(s, offset)).dom() =~= entries_map(s).dom());
    }
}

impl NameMap<usize> {
    /// Whether no value is above `bound`.
    pub fn values_at_most(&self, bound: usize) -> (r: bool)
        requires
            self.wf(),
        ensures
            r == (forall|k: Seq<char>| #[trigger] self@.contains_key(k) ==> self@[k] <= bound),
    {
        let ghost s = self.pairs();
        let mut i: usize = 0;
        while i < self.entries.len()
            invariant
                i <= self.entries@.len(),
                s == self.pairs(),
                distinct_names(s),
                forall|j: int| 0 <= j < i ==> s[j].1 <= bound,
            decreases self.entries@.len() - i,
        {
            assert(s[i as int] == (self.entries@[i as int].0@, self.entries@[i as int].1));
            if self.entries[i].1 > bound {
                proof {
                    assert forall|j: int| i < j < s.len() implies s[j].0 != s[i as int].0 by {}
                    lemma_entries_at(s, i as int);
                    assert(self@.contains_key(s[i as int].0));
                    assert(self@[s[i as int].0] > bound);
                }
                return false;
            }
            i += 1;
        }
        proof {
            assert forall|k: Seq<char>| #[trigger] self@.contains_key(k) implies self@[k] <= bound by {
                lemma_entries_dom(s, k);
                let j = choose|j: int| 0 <= j < s.len() && s[j].0 == k;
                assert forall|m: int| j < m < s.len() implies s[m].0 != s[j].0 by {}
                lemma_entries_at(s, j);
            }
        }
        true
    }

    /// Increases every value by `offset`.
    pub fn add_offset(&mut self, offset: usize)
        requires
            old(self).wf(),
            forall|k: Seq<char>| #[trigger]
                old(self)@.contains_key(k) ==> old(self)@[k] + offset <= usize::MAX,
        ensures
            final(self).wf(),
            final(self)@.dom() == old(self)@.dom(),
            forall|k: Seq<char>| #[trigger]
                old(self)@.contains_key(k) ==> final(self)@[k] == old(self)@[k] + offset,
    {
        let ghost s = self.pairs();
        proof {
            assert forall|i: int| 0 <= i < s.len() implies s[i].1 + offset <= usize::MAX by {
                assert forall|j: int| i < j < s.len() implies s[j].0 != s[i].0 by {}
                lemma_entries_at(s, i);
                assert(old(self)@.contains_key(s[i].0));
            }
            lemma_entries_shifted(s, offset);
        }
        let mut entries: Vec<(String, usize)> = Vec::new();
        let mut i: usize = 0;
        while i < self.entries.len()
            invariant
                i <= self.entries@.len(),
                s == self.pairs(),
                forall|j: int| 0 <= j < s.len() ==> s[j].1 + offset <= usize::MAX,
                entries@.map_values(|e: (String, usize)| (e.0@, e.1)) == shifted(s, offset).take(
                    i as int,
                ),
            decreases self.entries@.len() - i,
        {
            assert(s[i as int] == (self.entries@[i as int].0@, self.entries@[i as int].1));
            let ghost before = entries@;
            let name = self.entries[i].0.clone();
            let value = self.entries[i].1 + offset;
            entries.push((name, value));
            assert(entries@.map_values(|e: (String, usize)| (e.0@, e.1)) =~= before.map_values(
                |e: (String, usize)| (e.0@, e.1),
            ).push(shifted(s, offset)[i as int]));
            assert(shifted(s, offset).take(i + 1) =~= shifted(s, offset).take(i as int).push(
                shifted(s, offset)[i as int],
            ));
            i += 1;
        }
        self.entries = entries;
        assert(shifted(s, offset).take(s.len() as int) =~= shifted(s, offset));
        assert(self.pairs() =~= shifted(s, offset));
    }
}

} // verus!
