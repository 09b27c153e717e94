//! Correlating a provider's conversation-item ids to turns.
//!
//! A provider may reopen an item — a late transcript delta, a duplicate
//! `completed` — so a binding is kept after completion and the first binding
//! wins. The map is bounded and evicts the oldest-inserted item first, taking
//! that item's invalidation with it.

use indexmap::{IndexMap, IndexSet};
use vstd::prelude::*;
use crate::imap::{distinct_strings, string_set_clear, string_set_contains, string_set_entries, string_set_insert, string_set_new, string_set_shift_remove, turn_ref_entries, turn_ref_map_clear, turn_ref_map_index_of, turn_ref_map_insert, turn_ref_map_len, turn_ref_map_new, turn_ref_map_shift_remove_first, turn_ref_map_value_at};
use crate::strmap::{distinct_keys, has_key, key_index, lemma_key_index, value_of};
use crate::announcement::window::remove_string;

verus! {

/// How many item ids one correlation holds.
pub const DEFAULT_MAX_ITEMS: usize = 100;

/// The turn one conversation item belongs to: an id and a generation, which
/// is bumped on every new turn and every barge-in.
#[derive(Clone, Debug, Default, PartialEq, Eq, Hash)]
pub struct TurnRef {
    /// `voice-<epoch_ms>-<generation>` or `text_<uuid>`.
    pub turn_id: String,
    /// Monotonic within one connection.
    pub turn_generation: i64,
}

impl TurnRef {
    /// A turn reference.
    pub fn new(turn_id: &str, turn_generation: i64) -> (r: Self)
        ensures
            r.turn_id@ == turn_id@,
            r.turn_generation == turn_generation,
    {
        TurnRef { turn_id: turn_id.to_owned(), turn_generation }
    }

    /// A copy of this reference.
    pub fn duplicate(&self) -> (r: Self)
        ensures
            r == *self,
    {
        TurnRef { turn_id: self.turn_id.clone(), turn_generation: self.turn_generation }
    }
}

/// What [`TurnCorrelation::complete`] answers.
#[derive(Clone, Debug, PartialEq, Eq)]
pub struct CompletedTurn {
    /// The correlated turn, or the supplied fallback.
    pub context: TurnRef,
    /// Whether the item was invalidated before it completed.
    pub invalid: bool,
}

/// A bounded item-id → turn map with an invalidation set beside it.
pub struct TurnCorrelation {
    max_items: usize,
    turns: IndexMap<String, TurnRef>,
    invalid_items: IndexSet<String>,
}

/// The last `max` entries of `s` — what a bounded, oldest-first eviction
/// keeps.
pub open spec fn keep_newest<V>(s: Seq<(Seq<char>, V)>, max: nat) -> Seq<(Seq<char>, V)> {
    if s.len() <= max {
        s
    } else {
        s.skip(s.len() - max)
    }
}

impl TurnCorrelation {
    /// The bindings, oldest first.
    pub closed spec fn turns_spec(&self) -> Seq<(Seq<char>, TurnRef)> {
        turn_ref_entries(self.turns)
    }

    /// The invalidated item ids.
    pub closed spec fn invalid_spec(&self) -> Set<Seq<char>> {
        string_set_entries(self.invalid_items).to_set()
    }

    /// The bound.
    pub closed spec fn max_items_spec(&self) -> usize {
        self.max_items
    }

    /// The maps never hold a key twice.
    pub closed spec fn wf(&self) -> bool {
        distinct_keys(turn_ref_entries(self.turns)) && distinct_strings(string_set_entries(self.invalid_items))
    }

    /// A correlation holding at most `max_items` ids.
    pub fn new(max_items: usize) -> (r: Self)
        ensures
            r.wf(),
            r.turns_spec() == Seq::<(Seq<char>, TurnRef)>::empty(),
            r.invalid_spec() == Set::<Seq<char>>::empty(),
            r.max_items_spec() == max_items,
    {
        let r = TurnCorrelation { max_items, turns: turn_ref_map_new(), invalid_items: string_set_new() };
        assert(r.invalid_spec() =~= Set::<Seq<char>>::empty());
        r
    }

    /// Bind `item_id` to `context`, or answer the binding that already
    /// exists: the first writer wins. An empty id binds nothing and echoes
    /// the context. Past the bound, the oldest bindings are evicted, each
    /// with its invalidation.
    pub fn remember(&mut self, item_id: &str, context: TurnRef) -> (r: TurnRef)
        requires
            old(self).wf(),
        ensures
            final(self).wf(),
            final(self).max_items_spec() == old(self).max_items_spec(),
            item_id@.len() == 0 ==> r == context && final(self).turns_spec() == old(self).turns_spec()
                && final(self).invalid_spec() == old(self).invalid_spec(),
            item_id@.len() > 0 && has_key(old(self).turns_spec(), item_id@) ==> r == value_of(old(self).turns_spec(), item_id@)
                && final(self).turns_spec() == old(self).turns_spec() && final(self).invalid_spec() == old(self).invalid_spec(),
            item_id@.len() > 0 && !has_key(old(self).turns_spec(), item_id@) ==> {
                let pushed = old(self).turns_spec().push((item_id@, context));
                let kept = keep_newest(pushed, old(self).max_items_spec() as nat);
                &&& r == context
                &&& final(self).turns_spec() == kept
                &&& final(self).invalid_spec() == old(self).invalid_spec().filter(
                    |k: Seq<char>| !(exists|i: int| 0 <= i < pushed.len() - kept.len() && pushed[i].0 == k))
            },
    {
        if item_id.is_empty() {
            return context;
        }
        match turn_ref_map_index_of(&self.turns, item_id) {
            Some(i) => {
                proof {
                    lemma_key_index(self.turns_spec(), i as int);
                }
                return turn_ref_map_value_at(&self.turns, i).duplicate();
            },
            None => {},
        }
        let ghost before_turns = self.turns_spec();
        let ghost before_invalid = self.invalid_spec();
        assert(!has_key(before_turns, item_id@));
        let kept_context = context.duplicate();
        turn_ref_map_insert(&mut self.turns, item_id.to_owned(), context);
        let ghost pushed = before_turns.push((item_id@, kept_context));
        assert(self.turns_spec() == pushed);
        let ghost mut evicted: int = 0;
        while turn_ref_map_len(&self.turns) > self.max_items
            invariant
                self.wf(),
                0 <= evicted <= pushed.len(),
                evicted > 0 ==> pushed.len() - evicted >= self.max_items,
                self.turns_spec() == pushed.skip(evicted),
                self.invalid_spec() == before_invalid.filter(
                    |k: Seq<char>| !(exists|i: int| 0 <= i < evicted && pushed[i].0 == k)),
                self.max_items == old(self).max_items_spec(),
            decreases pushed.len() - evicted,
        {
            let ghost before_step = self.invalid_spec();
            let gone = turn_ref_map_shift_remove_first(&mut self.turns);
            if let Some((oldest, _)) = gone {
                proof {
                    lemma_remove_string_set(string_set_entries(self.invalid_items), oldest@);
                }
                string_set_shift_remove(&mut self.invalid_items, oldest.as_str());
                proof {
                    assert(pushed.skip(evicted)[0] == pushed[evicted]);
                    assert(self.turns_spec() =~= pushed.skip(evicted + 1));
                    assert(self.invalid_spec() =~= before_invalid.filter(
                        |k: Seq<char>| !(exists|i: int| 0 <= i < evicted + 1 && pushed[i].0 == k))) by {
                        assert forall|k: Seq<char>| #[trigger] self.invalid_spec().contains(k) == before_invalid.filter(
                            |k: Seq<char>| !(exists|i: int| 0 <= i < evicted + 1 && pushed[i].0 == k)).contains(k) by {
                            if k == oldest@ {
                                assert(pushed[evicted].0 == k);
                            } else {
                                if exists|i: int| 0 <= i < evicted + 1 && pushed[i].0 == k {
                                    let i = choose|i: int| 0 <= i < evicted + 1 && pushed[i].0 == k;
                                    assert(i < evicted);
                                }
                            }
                        }
                    }
                    evicted = evicted + 1;
                }
            }
        }
        proof {
            let kept = keep_newest(pushed, old(self).max_items_spec() as nat);
            if pushed.len() <= self.max_items {
                assert(evicted == 0) by {
                    if evicted > 0 {
                        assert(false);
                    }
                }
            }
            assert(pushed.skip(0) =~= pushed);
            assert(self.turns_spec() =~= kept);
            assert(evicted == pushed.len() - kept.len());
        }
        kept_context
    }
}


impl TurnCorrelation {
    /// The turn bound to `item_id`, or `fallback`.
    pub fn resolve(&self, item_id: &str, fallback: TurnRef) -> (r: TurnRef)
        requires
            self.wf(),
        ensures
            r == if has_key(self.turns_spec(), item_id@) {
                value_of(self.turns_spec(), item_id@)
            } else {
                fallback
            },
    {
        match turn_ref_map_index_of(&self.turns, item_id) {
            Some(i) => {
                proof {
                    lemma_key_index(self.turns_spec(), i as int);
                }
                turn_ref_map_value_at(&self.turns, i).duplicate()
            },
            None => fallback,
        }
    }

    /// The turn bound to `item_id`, if any.
    pub fn lookup(&self, item_id: &str) -> (r: Option<&TurnRef>)
        requires
            self.wf(),
        ensures
            r is Some == has_key(self.turns_spec(), item_id@),
            r matches Some(t) ==> *t == value_of(self.turns_spec(), item_id@),
    {
        match turn_ref_map_index_of(&self.turns, item_id) {
            Some(i) => {
                proof {
                    lemma_key_index(self.turns_spec(), i as int);
                }
                Some(turn_ref_map_value_at(&self.turns, i))
            },
            None => None,
        }
    }

    /// Mark `item_id`'s transcript void; an empty id is ignored.
    pub fn invalidate(&mut self, item_id: &str)
        requires
            old(self).wf(),
        ensures
            final(self).wf(),
            final(self).turns_spec() == old(self).turns_spec(),
            final(self).max_items_spec() == old(self).max_items_spec(),
            final(self).invalid_spec() == if item_id@.len() == 0 {
                old(self).invalid_spec()
            } else {
                old(self).invalid_spec().insert(item_id@)
            },
    {
        if !item_id.is_empty() {
            let ghost before = string_set_entries(self.invalid_items);
            let added = string_set_insert(&mut self.invalid_items, item_id.to_owned());
            proof {
                if added {
                    let t = before.push(item_id@);
                    assert forall|k: Seq<char>| #[trigger] t.to_set().contains(k) == before.to_set().insert(item_id@).contains(k) by {
                        if t.contains(k) {
                            let j = choose|j: int| 0 <= j < t.len() && t[j] == k;
                            if j < before.len() {
                                assert(before[j] == k);
                            }
                        }
                        if before.contains(k) {
                            let j = choose|j: int| 0 <= j < before.len() && before[j] == k;
                            assert(t[j] == k);
                        }
                        if k == item_id@ {
                            assert(t[before.len() as int] == k);
                        }
                    }
                    assert(t.to_set() =~= before.to_set().insert(item_id@));
                } else {
                    assert(before.to_set() =~= before.to_set().insert(item_id@));
                }
            }
        }
    }

    /// Whether `item_id` was invalidated.
    pub fn is_invalid(&self, item_id: &str) -> (r: bool)
        ensures
            r == self.invalid_spec().contains(item_id@),
    {
        string_set_contains(&self.invalid_items, item_id)
    }

    /// Resolve `item_id` and report whether it was invalidated. The binding
    /// is kept.
    pub fn complete(&self, item_id: &str, fallback: TurnRef) -> (r: CompletedTurn)
        requires
            self.wf(),
        ensures
            r.context == if has_key(self.turns_spec(), item_id@) {
                value_of(self.turns_spec(), item_id@)
            } else {
                fallback
            },
            r.invalid == self.invalid_spec().contains(item_id@),
    {
        CompletedTurn { context: self.resolve(item_id, fallback), invalid: self.is_invalid(item_id) }
    }

    /// Drop every binding and every invalidation.
    pub fn clear(&mut self)
        ensures
            final(self).wf(),
            final(self).turns_spec() == Seq::<(Seq<char>, TurnRef)>::empty(),
            final(self).invalid_spec() == Set::<Seq<char>>::empty(),
            final(self).max_items_spec() == old(self).max_items_spec(),
    {
        turn_ref_map_clear(&mut self.turns);
        string_set_clear(&mut self.invalid_items);
        assert(self.invalid_spec() =~= Set::<Seq<char>>::empty());
    }

    /// How many ids are bound.
    pub fn len(&self) -> (r: usize)
        ensures
            r == self.turns_spec().len(),
    {
        turn_ref_map_len(&self.turns)
    }

    /// Whether nothing is bound.
    pub fn is_empty(&self) -> (r: bool)
        ensures
            r == (self.turns_spec().len() == 0),
    {
        turn_ref_map_len(&self.turns) == 0
    }
}

impl Default for TurnCorrelation {
    fn default() -> (r: Self)
        ensures
            r.wf(),
            r.turns_spec() == Seq::<(Seq<char>, TurnRef)>::empty(),
            r.max_items_spec() == DEFAULT_MAX_ITEMS,
    {
        TurnCorrelation::new(DEFAULT_MAX_ITEMS)
    }
}

/// A bounded correlation never holds more than its bound once it has
/// evicted, and always keeps the newest bindings.
pub proof fn lemma_keep_newest_bound<V>(s: Seq<(Seq<char>, V)>, max: nat)
    ensures
        keep_newest(s, max).len() == if s.len() <= max { s.len() } else { max },
        s.len() > 0 && max > 0 ==> keep_newest(s, max).last() == s.last(),
{
}

/// Removing a string from a distinct list removes it from the set the list
/// denotes.
pub proof fn lemma_remove_string_set(s: Seq<Seq<char>>, v: Seq<char>)
    requires
        distinct_strings(s),
    ensures
        remove_string(s, v).to_set() == s.to_set().remove(v),
        distinct_strings(remove_string(s, v)),
{
    if s.contains(v) {
        let i = s.index_of(v);
        let t = s.remove(i);
        assert forall|a: int, b: int| 0 <= a < b < t.len() implies #[trigger] t[a] != #[trigger] t[b] by {
            let a2 = if a < i { a } else { a + 1 };
            let b2 = if b < i { b } else { b + 1 };
            assert(t[a] == s[a2] && t[b] == s[b2]);
        }
        assert forall|k: Seq<char>| #[trigger] t.to_set().contains(k) == s.to_set().remove(v).contains(k) by {
            if t.to_set().contains(k) {
                let j = choose|j: int| 0 <= j < t.len() && t[j] == k;
                let j2 = if j < i { j } else { j + 1 };
                assert(t[j] == s[j2]);
                assert(s.contains(k));
                if k == v {
                    if j2 < i {
                        assert(s[j2] != s[i]);
                    } else {
                        assert(s[i] != s[j2]);
                    }
                }
            }
            if s.to_set().remove(v).contains(k) {
                let j = choose|j: int| 0 <= j < s.len() && s[j] == k;
                assert(j != i);
                if j < i {
                    assert(t[j] == k);
                } else {
                    assert(t[j - 1] == k);
                }
            }
        }
        assert(t.to_set() =~= s.to_set().remove(v));
    } else {
        assert(s.to_set() =~= s.to_set().remove(v));
    }
}

} // verus!
