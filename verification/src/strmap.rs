//! A small insertion-ordered map from strings to values, kept as a vector
//! whose keys never repeat.
//!
//! It stands where a `HashMap<String, _>` held per-owner or per-session
//! state: the tables are small, and a vector whose keys are pairwise distinct
//! is what the proofs about those tables can speak of.

use vstd::prelude::*;
use crate::chars::str_eq;

verus! {

/// The map a sequence of distinct-keyed entries denotes.
pub open spec fn entries_map<V>(s: Seq<(Seq<char>, V)>) -> Map<Seq<char>, V> {
    Map::new(
        |k: Seq<char>| exists|i: int| 0 <= i < s.len() && s[i].0 == k,
        |k: Seq<char>| s[choose|i: int| 0 <= i < s.len() && s[i].0 == k].1,
    )
}

/// The keys of a sequence of entries are pairwise distinct.
pub open spec fn distinct_keys<V>(s: Seq<(Seq<char>, V)>) -> bool {
    forall|i: int, j: int| 0 <= i < j < s.len() ==> #[trigger] s[i].0 != #[trigger] s[j].0
}

/// Whether some entry has key `k`.
pub open spec fn has_key<V>(s: Seq<(Seq<char>, V)>, k: Seq<char>) -> bool {
    exists|i: int| 0 <= i < s.len() && s[i].0 == k
}

/// The position of the entry with key `k`.
pub open spec fn key_index<V>(s: Seq<(Seq<char>, V)>, k: Seq<char>) -> int {
    choose|i: int| 0 <= i < s.len() && s[i].0 == k
}

/// The value bound to `k`.
pub open spec fn value_of<V>(s: Seq<(Seq<char>, V)>, k: Seq<char>) -> V {
    s[key_index(s, k)].1
}

/// Bind `k` to `v`: in place when `k` has an entry, at the end otherwise.
pub open spec fn seq_insert_entry<V>(s: Seq<(Seq<char>, V)>, k: Seq<char>, v: V) -> Seq<(Seq<char>, V)> {
    if has_key(s, k) {
        s.update(key_index(s, k), (k, v))
    } else {
        s.push((k, v))
    }
}

/// Remove the entry with key `k`, keeping the order of the rest.
pub open spec fn seq_remove_entry<V>(s: Seq<(Seq<char>, V)>, k: Seq<char>) -> Seq<(Seq<char>, V)> {
    if has_key(s, k) {
        s.remove(key_index(s, k))
    } else {
        s
    }
}

/// In a distinct-keyed sequence, `key_index` of entry `i`'s key is `i`.
pub proof fn lemma_key_index<V>(s: Seq<(Seq<char>, V)>, i: int)
    requires
        distinct_keys(s),
        0 <= i < s.len(),
    ensures
        has_key(s, s[i].0),
        key_index(s, s[i].0) == i,
{
    let j = key_index(s, s[i].0);
    assert(0 <= j < s.len() && s[j].0 == s[i].0);
    if j < i {
        assert(s[j].0 != s[i].0);
    } else if i < j {
        assert(s[i].0 != s[j].0);
    }
}

/// After binding `k`, the entry for `k` holds `v`, and exactly the keys held
/// before, plus `k`, are held.
pub proof fn lemma_insert_entry<V>(s: Seq<(Seq<char>, V)>, k: Seq<char>, v: V)
    requires
        distinct_keys(seq_insert_entry(s, k, v)),
    ensures
        has_key(seq_insert_entry(s, k, v), k),
        value_of(seq_insert_entry(s, k, v), k) == v,
        forall|o: Seq<char>| o != k ==> (has_key(seq_insert_entry(s, k, v), o) == has_key(s, o)),
        forall|o: Seq<char>| o != k && has_key(s, o) ==> value_of(seq_insert_entry(s, k, v), o) == value_of(s, o),
        seq_insert_entry(s, k, v).len() == if has_key(s, k) { s.len() } else { s.len() + 1 },
{
    let t = seq_insert_entry(s, k, v);
    let i = if has_key(s, k) { key_index(s, k) } else { s.len() as int };
    assert(t[i].0 == k);
    lemma_key_index(t, i);
    assert forall|o: Seq<char>| o != k implies (has_key(t, o) == has_key(s, o)) by {
        if has_key(t, o) {
            let j = key_index(t, o);
            assert(j != i);
            assert(s[j].0 == o);
        }
        if has_key(s, o) {
            let j = key_index(s, o);
            assert(t[j].0 == o);
        }
    }
    assert forall|o: Seq<char>| o != k && has_key(s, o) implies value_of(t, o) == value_of(s, o) by {
        let j = key_index(s, o);
        assert(t[j] == s[j]);
        lemma_key_index(t, j);
    }
}

/// Entry `i` of a distinct-keyed sequence is what the map holds for its key.
pub proof fn lemma_entries_map_index<V>(s: Seq<(Seq<char>, V)>, i: int)
    requires
        distinct_keys(s),
        0 <= i < s.len(),
    ensures
        entries_map(s).contains_key(s[i].0),
        entries_map(s)[s[i].0] == s[i].1,
{
    let k = s[i].0;
    let j = choose|j: int| 0 <= j < s.len() && s[j].0 == k;
    assert(0 <= j < s.len() && s[j].0 == k);
    if i < j {
        assert(s[i].0 != s[j].0);
    } else if j < i {
        assert(s[j].0 != s[i].0);
    }
}

/// A key the sequence does not hold is absent from its map.
pub proof fn lemma_entries_map_absent<V>(s: Seq<(Seq<char>, V)>, k: Seq<char>)
    requires
        forall|i: int| 0 <= i < s.len() ==> s[i].0 != k,
    ensures
        !entries_map(s).contains_key(k),
{
}

/// Appending an entry with a new key inserts it into the map.
pub proof fn lemma_entries_map_push<V>(s: Seq<(Seq<char>, V)>, k: Seq<char>, v: V)
    requires
        distinct_keys(s),
        !entries_map(s).contains_key(k),
    ensures
        distinct_keys(s.push((k, v))),
        entries_map(s.push((k, v))) == entries_map(s).insert(k, v),
{
    let t = s.push((k, v));
    assert forall|i: int, j: int| 0 <= i < j < t.len() implies #[trigger] t[i].0 != #[trigger] t[j].0 by {
        if j == s.len() {
            assert(t[i].0 == s[i].0);
            if s[i].0 == k {
                assert(entries_map(s).contains_key(k));
            }
        } else {
            assert(t[i] == s[i] && t[j] == s[j]);
        }
    }
    assert forall|key: Seq<char>| #[trigger]
        entries_map(t).contains_key(key) == entries_map(s).insert(k, v).contains_key(key) by {
        if entries_map(s).contains_key(key) {
            let i = choose|i: int| 0 <= i < s.len() && s[i].0 == key;
            assert(t[i].0 == key);
        }
        if key == k {
            assert(t[s.len() as int].0 == key);
        }
        if entries_map(t).contains_key(key) {
            let i = choose|i: int| 0 <= i < t.len() && t[i].0 == key;
            if i < s.len() {
                assert(t[i] == s[i]);
            }
        }
    }
    assert forall|key: Seq<char>| #[trigger] entries_map(t).contains_key(key) implies entries_map(
        t,
    )[key] == entries_map(s).insert(k, v)[key] by {
        let i = choose|i: int| 0 <= i < t.len() && t[i].0 == key;
        lemma_entries_map_index(t, i);
        if i < s.len() {
            assert(t[i] == s[i]);
            lemma_entries_map_index(s, i);
        }
    }
    assert(entries_map(t) =~= entries_map(s).insert(k, v));
}

/// Replacing the value of entry `i` updates the map at that key.
pub proof fn lemma_entries_map_update<V>(s: Seq<(Seq<char>, V)>, i: int, v: V)
    requires
        distinct_keys(s),
        0 <= i < s.len(),
    ensures
        distinct_keys(s.update(i, (s[i].0, v))),
        entries_map(s.update(i, (s[i].0, v))) == entries_map(s).insert(s[i].0, v),
{
    let k = s[i].0;
    let t = s.update(i, (k, v));
    assert forall|a: int, b: int| 0 <= a < b < t.len() implies #[trigger] t[a].0 != #[trigger] t[b].0 by {
        assert(t[a].0 == s[a].0 && t[b].0 == s[b].0);
    }
    assert forall|key: Seq<char>| #[trigger]
        entries_map(t).contains_key(key) == entries_map(s).insert(k, v).contains_key(key) by {
        if entries_map(s).contains_key(key) {
            let j = choose|j: int| 0 <= j < s.len() && s[j].0 == key;
            assert(t[j].0 == key);
        }
        if key == k {
            assert(t[i].0 == key);
        }
        if entries_map(t).contains_key(key) {
            let j = choose|j: int| 0 <= j < t.len() && t[j].0 == key;
            assert(s[j].0 == key);
        }
    }
    assert forall|key: Seq<char>| #[trigger] entries_map(t).contains_key(key) implies entries_map(
        t,
    )[key] == entries_map(s).insert(k, v)[key] by {
        let j = choose|j: int| 0 <= j < t.len() && t[j].0 == key;
        lemma_entries_map_index(t, j);
        if j != i {
            assert(t[j] == s[j]);
            lemma_entries_map_index(s, j);
        }
    }
    assert(entries_map(t) =~= entries_map(s).insert(k, v));
}

/// Removing entry `i` removes its key from the map.
pub proof fn lemma_entries_map_remove<V>(s: Seq<(Seq<char>, V)>, i: int)
    requires
        distinct_keys(s),
        0 <= i < s.len(),
    ensures
        distinct_keys(s.remove(i)),
        entries_map(s.remove(i)) == entries_map(s).remove(s[i].0),
{
    let k = s[i].0;
    let t = s.remove(i);
    assert forall|a: int, b: int| 0 <= a < b < t.len() implies #[trigger] t[a].0 != #[trigger] t[b].0 by {
        let a2 = if a < i { a } else { a + 1 };
        let b2 = if b < i { b } else { b + 1 };
        assert(t[a] == s[a2] && t[b] == s[b2]);
    }
    assert forall|key: Seq<char>| #[trigger]
        entries_map(t).contains_key(key) == entries_map(s).remove(k).contains_key(key) by {
        if entries_map(s).contains_key(key) && key != k {
            let j = choose|j: int| 0 <= j < s.len() && s[j].0 == key;
            if j < i {
                assert(t[j] == s[j]);
            } else {
                assert(j != i);
                assert(t[j - 1] == s[j]);
            }
        }
        if entries_map(t).contains_key(key) {
            let j = choose|j: int| 0 <= j < t.len() && t[j].0 == key;
            let j2 = if j < i { j } else { j + 1 };
            assert(t[j] == s[j2]);
            if j2 < i {
                assert(s[j2].0 != s[i].0);
            } else {
                assert(s[i].0 != s[j2].0);
            }
        }
    }
    assert forall|key: Seq<char>| #[trigger] entries_map(t).contains_key(key) implies entries_map(
        t,
    )[key] == entries_map(s).remove(k)[key] by {
        let j = choose|j: int| 0 <= j < t.len() && t[j].0 == key;
        lemma_entries_map_index(t, j);
        let j2 = if j < i { j } else { j + 1 };
        assert(t[j] == s[j2]);
        lemma_entries_map_index(s, j2);
    }
    assert(entries_map(t) =~= entries_map(s).remove(k));
}

/// The map of a distinct-keyed sequence has as many keys as entries.
pub proof fn lemma_entries_map_len<V>(s: Seq<(Seq<char>, V)>)
    requires
        distinct_keys(s),
    ensures
        entries_map(s).dom().finite(),
        entries_map(s).len() == s.len(),
{
    let keys = s.map_values(|e: (Seq<char>, V)| e.0);
    assert forall|i: int, j: int| 0 <= i < keys.len() && 0 <= j < keys.len() && i != j implies keys[i]
        != keys[j] by {
        if i < j {
            assert(s[i].0 != s[j].0);
        } else {
            assert(s[j].0 != s[i].0);
        }
    }
    assert(keys.no_duplicates());
    keys.unique_seq_to_set();
    assert forall|k: Seq<char>| #[trigger] entries_map(s).dom().contains(k) == keys.to_set().contains(
        k,
    ) by {
        if entries_map(s).dom().contains(k) {
            let j = choose|j: int| 0 <= j < s.len() && s[j].0 == k;
            assert(keys[j] == k);
        }
        if keys.to_set().contains(k) {
            let j = choose|j: int| 0 <= j < keys.len() && keys[j] == k;
            assert(s[j].0 == k);
        }
    }
    assert(entries_map(s).dom() =~= keys.to_set());
}

/// An insertion-ordered table keyed by strings, with no key twice.
#[derive(Clone, Debug, PartialEq, Eq)]
pub struct StrMap<V> {
    entries: Vec<(String, V)>,
}

impl<V> StrMap<V> {
    /// The entries in insertion order, keys as sequences.
    pub closed spec fn seq(&self) -> Seq<(Seq<char>, V)> {
        self.entries@.map_values(|e: (String, V)| (e.0@, e.1))
    }

    /// The keys never repeat.
    pub open spec fn wf(&self) -> bool {
        distinct_keys(self.seq())
    }

    /// The map the table denotes.
    pub open spec fn view(&self) -> Map<Seq<char>, V> {
        entries_map(self.seq())
    }

    /// An empty table.
    pub fn new() -> (r: Self)
        ensures
            r.wf(),
            r.seq() == Seq::<(Seq<char>, V)>::empty(),
            r@ == Map::<Seq<char>, V>::empty(),
    {
        let r = StrMap { entries: Vec::new() };
        assert(r.seq() =~= Seq::<(Seq<char>, V)>::empty());
        assert(r@ =~= Map::<Seq<char>, V>::empty());
        r
    }

    /// How many entries the table holds.
    pub fn len(&self) -> (r: usize)
        requires
            self.wf(),
        ensures
            r == self.seq().len(),
            r == self@.len(),
            self@.dom().finite(),
    {
        proof {
            lemma_entries_map_len(self.seq());
        }
        self.entries.len()
    }

    /// The position of `key`, if the table holds it.
    pub fn index_of(&self, key: &str) -> (r: Option<usize>)
        requires
            self.wf(),
        ensures
            r matches Some(i) ==> i < self.seq().len() && self.seq()[i as int].0 == key@,
            r is Some == self@.contains_key(key@),
            r matches Some(i) ==> self@[key@] == self.seq()[i as int].1,
    {
        let mut i: usize = 0;
        while i < self.entries.len()
            invariant
                i <= self.entries@.len(),
                self.wf(),
                self.seq().len() == self.entries@.len(),
                forall|j: int| 0 <= j < i ==> self.seq()[j].0 != key@,
            decreases self.entries.len() - i,
        {
            if str_eq(self.entries[i].0.as_str(), key) {
                proof {
                    lemma_entries_map_index(self.seq(), i as int);
                }
                return Some(i);
            }
            i = i + 1;
        }
        None
    }

    /// The key of entry `i`.
    pub fn key_at(&self, i: usize) -> (r: &str)
        requires
            i < self.seq().len(),
        ensures
            r@ == self.seq()[i as int].0,
    {
        self.entries[i].0.as_str()
    }

    /// The value of entry `i`.
    pub fn value_at(&self, i: usize) -> (r: &V)
        requires
            i < self.seq().len(),
        ensures
            *r == self.seq()[i as int].1,
    {
        &self.entries[i].1
    }

    /// The value held for `key`.
    pub fn get(&self, key: &str) -> (r: Option<&V>)
        requires
            self.wf(),
        ensures
            r is Some == self@.contains_key(key@),
            r matches Some(v) ==> *v == self@[key@],
    {
        match self.index_of(key) {
            Some(i) => Some(&self.entries[i].1),
            None => None,
        }
    }

    /// Replace the value of entry `i`, keeping its position.
    pub fn set_value_at(&mut self, i: usize, value: V)
        requires
            old(self).wf(),
            i < old(self).seq().len(),
        ensures
            final(self).wf(),
            final(self).seq() == old(self).seq().update(i as int, (old(self).seq()[i as int].0, value)),
            final(self)@ == old(self)@.insert(old(self).seq()[i as int].0, value),
    {
        proof {
            lemma_entries_map_update(self.seq(), i as int, value);
        }
        let (key, _) = self.entries.remove(i);
        self.entries.insert(i, (key, value));
        assert(self.seq() =~= old(self).seq().update(i as int, (old(self).seq()[i as int].0, value)));
    }

    /// Bind `key` to `value`: in place when the key is held, at the end
    /// otherwise.
    pub fn insert(&mut self, key: String, value: V)
        requires
            old(self).wf(),
        ensures
            final(self).wf(),
            final(self)@ == old(self)@.insert(key@, value),
            old(self)@.contains_key(key@) ==> final(self).seq().len() == old(self).seq().len(),
            !old(self)@.contains_key(key@) ==> final(self).seq() == old(self).seq().push(
                (key@, value),
            ),
    {
        match self.index_of(key.as_str()) {
            Some(i) => {
                self.set_value_at(i, value);
            },
            None => {
                proof {
                    lemma_entries_map_push(self.seq(), key@, value);
                }
                let ghost k = key@;
                self.entries.push((key, value));
                assert(self.seq() =~= old(self).seq().push((k, value)));
            },
        }
    }

    /// Remove entry `i`, keeping the order of the rest.
    pub fn remove_at(&mut self, i: usize) -> (r: (String, V))
        requires
            old(self).wf(),
            i < old(self).seq().len(),
        ensures
            final(self).wf(),
            final(self).seq() == old(self).seq().remove(i as int),
            final(self)@ == old(self)@.remove(old(self).seq()[i as int].0),
            (r.0@, r.1) == old(self).seq()[i as int],
    {
        proof {
            lemma_entries_map_remove(self.seq(), i as int);
        }
        let r = self.entries.remove(i);
        assert(self.seq() =~= old(self).seq().remove(i as int));
        r
    }

    /// Remove `key`, answering its value.
    pub fn remove(&mut self, key: &str) -> (r: Option<V>)
        requires
            old(self).wf(),
        ensures
            final(self).wf(),
            final(self)@ == old(self)@.remove(key@),
            r is Some == old(self)@.contains_key(key@),
            r matches Some(v) ==> v == old(self)@[key@],
            final(self).seq().len() <= old(self).seq().len(),
    {
        match self.index_of(key) {
            Some(i) => {
                let (_, v) = self.remove_at(i);
                Some(v)
            },
            None => {
                assert(old(self)@.remove(key@) =~= old(self)@);
                None
            },
        }
    }

    /// Remove every entry.
    pub fn clear(&mut self)
        ensures
            final(self).wf(),
            final(self)@ == Map::<Seq<char>, V>::empty(),
            final(self).seq() == Seq::<(Seq<char>, V)>::empty(),
    {
        self.entries.clear();
        assert(self.seq() =~= Seq::<(Seq<char>, V)>::empty());
        assert(self@ =~= Map::<Seq<char>, V>::empty());
    }
}

} // verus!
