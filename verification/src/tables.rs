//! Insertion-ordered tables over the `indexmap` crate's `IndexMap`, one per
//! value type the logic stores: each names what its map holds, gives one
//! trusted wrapper per `IndexMap` method it calls, and offers the table
//! operations verified over those wrappers.

use indexmap::IndexMap;
use vstd::prelude::*;
use crate::assets::{Asset, SessionAssets};
use crate::input::parts::InputPart;
use crate::strmap::{
    distinct_keys, entries_map, has_key, lemma_entries_map_absent, lemma_entries_map_index, lemma_entries_map_len,
    lemma_entries_map_push, lemma_entries_map_remove, lemma_entries_map_update, seq_insert_entry,
};

verus! {

/// What an `IndexMap<String, Asset>` holds, in order: its entries, each key taken as a
/// character sequence.
pub uninterp spec fn asset_entries(m: IndexMap<String, Asset>) -> Seq<(Seq<char>, Asset)>;

/// Trusted: `IndexMap::new` holds no entries.
#[verifier::external_body]
fn asset_map_new() -> (m: IndexMap<String, Asset>)
    ensures
        asset_entries(m) == Seq::<(Seq<char>, Asset)>::empty(),
{
    IndexMap::new()
}

/// Trusted: `IndexMap::len` is the number of entries.
#[verifier::external_body]
fn asset_map_len(m: &IndexMap<String, Asset>) -> (r: usize)
    ensures
        r == asset_entries(*m).len(),
{
    m.len()
}

/// Trusted: `IndexMap::get_index_of` is the position of the entry whose key
/// equals `key`, and `None` when no entry has that key.
#[verifier::external_body]
fn asset_map_index_of(m: &IndexMap<String, Asset>, key: &str) -> (r: Option<usize>)
    ensures
        r matches Some(i) ==> i < asset_entries(*m).len() && asset_entries(*m)[i as int].0 == key@,
        r is None ==> forall|i: int| 0 <= i < asset_entries(*m).len() ==> asset_entries(*m)[i].0 != key@,
{
    m.get_index_of(key)
}

/// Trusted: `IndexMap::get_index` answers the key of entry `i`.
#[verifier::external_body]
fn asset_map_key_at(m: &IndexMap<String, Asset>, i: usize) -> (r: &str)
    requires
        i < asset_entries(*m).len(),
    ensures
        r@ == asset_entries(*m)[i as int].0,
{
    m.get_index(i).map_or("", |entry| entry.0.as_str())
}

/// Trusted: `IndexMap`'s `Index<usize>` answers the value of entry `i`.
#[verifier::external_body]
fn asset_map_value_at(m: &IndexMap<String, Asset>, i: usize) -> (r: &Asset)
    requires
        i < asset_entries(*m).len(),
    ensures
        *r == asset_entries(*m)[i as int].1,
{
    &m[i]
}

/// Trusted: `IndexMap`'s `IndexMut<usize>` replaces the value of entry `i`,
/// keeping its key and position.
#[verifier::external_body]
fn asset_map_set_at(m: &mut IndexMap<String, Asset>, i: usize, value: Asset)
    requires
        i < asset_entries(*old(m)).len(),
    ensures
        asset_entries(*final(m)) == asset_entries(*old(m)).update(i as int, (asset_entries(*old(m))[i as int].0, value)),
{
    m[i] = value;
}

/// Trusted: `IndexMap::insert` replaces the value of an existing key in
/// place; a new key is appended at the end.
#[verifier::external_body]
fn asset_map_insert(m: &mut IndexMap<String, Asset>, key: String, value: Asset)
    ensures
        asset_entries(*final(m)) == seq_insert_entry(asset_entries(*old(m)), key@, value),
{
    m.insert(key, value);
}

/// Trusted: `IndexMap::shift_remove_index` removes entry `i`, shifting the
/// later entries down, and answers it; `requires` keeps `i` in range, where
/// it always answers an entry.
#[verifier::external_body]
fn asset_map_remove_at(m: &mut IndexMap<String, Asset>, i: usize) -> (r: (String, Asset))
    requires
        i < asset_entries(*old(m)).len(),
    ensures
        asset_entries(*final(m)) == asset_entries(*old(m)).remove(i as int),
        (r.0@, r.1) == asset_entries(*old(m))[i as int],
{
    m.shift_remove_index(i).unwrap()
}

/// Trusted: `IndexMap::clear` removes every entry.
#[verifier::external_body]
fn asset_map_clear(m: &mut IndexMap<String, Asset>)
    ensures
        asset_entries(*final(m)) == Seq::<(Seq<char>, Asset)>::empty(),
{
    m.clear()
}

/// An insertion-ordered table of a session's attachments, by handle, held in an `IndexMap`.
#[derive(Debug)]
pub struct AssetTable {
    map: IndexMap<String, Asset>,
}

impl AssetTable {
    /// The entries in insertion order, keys as sequences.
    pub closed spec fn seq(&self) -> Seq<(Seq<char>, Asset)> {
        asset_entries(self.map)
    }

    /// The keys never repeat.
    pub open spec fn wf(&self) -> bool {
        distinct_keys(self.seq())
    }

    /// The map the table denotes.
    pub open spec fn view(&self) -> Map<Seq<char>, Asset> {
        entries_map(self.seq())
    }

    /// An empty table.
    pub fn new() -> (r: Self)
        ensures
            r.wf(),
            r.seq() == Seq::<(Seq<char>, Asset)>::empty(),
            r@ == Map::<Seq<char>, Asset>::empty(),
    {
        let r = AssetTable { map: asset_map_new() };
        assert(r@ =~= Map::<Seq<char>, Asset>::empty());
        r
    }

    /// How many entries the table holds.
    pub fn len(&self) -> (r: usize)
        requires
            self.wf(),
        ensures
            r == self.seq().len(),
            r == self@.len(),
            self@.dom().finite(),
    {
        proof {
            lemma_entries_map_len(self.seq());
        }
        asset_map_len(&self.map)
    }

    /// The position of `key`, if the table holds it.
    pub fn index_of(&self, key: &str) -> (r: Option<usize>)
        requires
            self.wf(),
        ensures
            r matches Some(i) ==> i < self.seq().len() && self.seq()[i as int].0 == key@,
            r is Some == self@.contains_key(key@),
            r matches Some(i) ==> self@[key@] == self.seq()[i as int].1,
    {
        let r = asset_map_index_of(&self.map, key);
        proof {
            match r {
                Some(i) => {
                    lemma_entries_map_index(self.seq(), i as int);
                },
                None => {
                    lemma_entries_map_absent(self.seq(), key@);
                },
            }
        }
        r
    }

    /// The key of entry `i`.
    pub fn key_at(&self, i: usize) -> (r: &str)
        requires
            i < self.seq().len(),
        ensures
            r@ == self.seq()[i as int].0,
    {
        asset_map_key_at(&self.map, i)
    }

    /// The value of entry `i`.
    pub fn value_at(&self, i: usize) -> (r: &Asset)
        requires
            i < self.seq().len(),
        ensures
            *r == self.seq()[i as int].1,
    {
        asset_map_value_at(&self.map, i)
    }

    /// The value held for `key`.
    pub fn get(&self, key: &str) -> (r: Option<&Asset>)
        requires
            self.wf(),
        ensures
            r is Some == self@.contains_key(key@),
            r matches Some(v) ==> *v == self@[key@],
    {
        match self.index_of(key) {
            Some(i) => Some(asset_map_value_at(&self.map, i)),
            None => None,
        }
    }

    /// Replace the value of entry `i`, keeping its position.
    pub fn set_value_at(&mut self, i: usize, value: Asset)
        requires
            old(self).wf(),
            i < old(self).seq().len(),
        ensures
            final(self).wf(),
            final(self).seq() == old(self).seq().update(i as int, (old(self).seq()[i as int].0, value)),
            final(self)@ == old(self)@.insert(old(self).seq()[i as int].0, value),
    {
        proof {
            lemma_entries_map_update(self.seq(), i as int, value);
        }
        asset_map_set_at(&mut self.map, i, value);
    }

    /// Bind `key` to `value`: in place when the key is held, at the end
    /// otherwise.
    pub fn insert(&mut self, key: String, value: Asset)
        requires
            old(self).wf(),
        ensures
            final(self).wf(),
            final(self)@ == old(self)@.insert(key@, value),
            old(self)@.contains_key(key@) ==> final(self).seq().len() == old(self).seq().len(),
            !old(self)@.contains_key(key@) ==> final(self).seq() == old(self).seq().push((key@, value)),
    {
        match self.index_of(key.as_str()) {
            Some(i) => {
                self.set_value_at(i, value);
            },
            None => {
                proof {
                    lemma_entries_map_push(self.seq(), key@, value);
                    assert(!has_key(self.seq(), key@));
                }
                asset_map_insert(&mut self.map, key, value);
            },
        }
    }

    /// Remove entry `i`, keeping the order of the rest.
    pub fn remove_at(&mut self, i: usize) -> (r: (String, Asset))
        requires
            old(self).wf(),
            i < old(self).seq().len(),
        ensures
            final(self).wf(),
            final(self).seq() == old(self).seq().remove(i as int),
            final(self)@ == old(self)@.remove(old(self).seq()[i as int].0),
            (r.0@, r.1) == old(self).seq()[i as int],
    {
        proof {
            lemma_entries_map_remove(self.seq(), i as int);
        }
        asset_map_remove_at(&mut self.map, i)
    }

    /// Remove `key`, answering its value.
    pub fn remove(&mut self, key: &str) -> (r: Option<Asset>)
        requires
            old(self).wf(),
        ensures
            final(self).wf(),
            final(self)@ == old(self)@.remove(key@),
            r is Some == old(self)@.contains_key(key@),
            r matches Some(v) ==> v == old(self)@[key@],
            final(self).seq().len() <= old(self).seq().len(),
    {
        match self.index_of(key) {
            Some(i) => {
                let (_, v) = self.remove_at(i);
                Some(v)
            },
            None => {
                assert(old(self)@.remove(key@) =~= old(self)@);
                None
            },
        }
    }

    /// Remove every entry.
    pub fn clear(&mut self)
        ensures
            final(self).wf(),
            final(self)@ == Map::<Seq<char>, Asset>::empty(),
            final(self).seq() == Seq::<(Seq<char>, Asset)>::empty(),
    {
        asset_map_clear(&mut self.map);
        assert(self@ =~= Map::<Seq<char>, Asset>::empty());
    }
}

/// What an `IndexMap<String, SessionAssets>` holds, in order: its entries, each key taken as a
/// character sequence.
pub uninterp spec fn session_assets_entries(m: IndexMap<String, SessionAssets>) -> Seq<(Seq<char>, SessionAssets)>;

/// Trusted: `IndexMap::new` holds no entries.
#[verifier::external_body]
fn session_assets_map_new() -> (m: IndexMap<String, SessionAssets>)
    ensures
        session_assets_entries(m) == Seq::<(Seq<char>, SessionAssets)>::empty(),
{
    IndexMap::new()
}

/// Trusted: `IndexMap::len` is the number of entries.
#[verifier::external_body]
fn session_assets_map_len(m: &IndexMap<String, SessionAssets>) -> (r: usize)
    ensures
        r == session_assets_entries(*m).len(),
{
    m.len()
}

/// Trusted: `IndexMap::get_index_of` is the position of the entry whose key
/// equals `key`, and `None` when no entry has that key.
#[verifier::external_body]
fn session_assets_map_index_of(m: &IndexMap<String, SessionAssets>, key: &str) -> (r: Option<usize>)
    ensures
        r matches Some(i) ==> i < session_assets_entries(*m).len() && session_assets_entries(*m)[i as int].0 == key@,
        r is None ==> forall|i: int| 0 <= i < session_assets_entries(*m).len() ==> session_assets_entries(*m)[i].0 != key@,
{
    m.get_index_of(key)
}

/// Trusted: `IndexMap::get_index` answers the key of entry `i`.
#[verifier::external_body]
fn session_assets_map_key_at(m: &IndexMap<String, SessionAssets>, i: usize) -> (r: &str)
    requires
        i < session_assets_entries(*m).len(),
    ensures
        r@ == session_assets_entries(*m)[i as int].0,
{
    m.get_index(i).map_or("", |entry| entry.0.as_str())
}

/// Trusted: `IndexMap`'s `Index<usize>` answers the value of entry `i`.
#[verifier::external_body]
fn session_assets_map_value_at(m: &IndexMap<String, SessionAssets>, i: usize) -> (r: &SessionAssets)
    requires
        i < session_assets_entries(*m).len(),
    ensures
        *r == session_assets_entries(*m)[i as int].1,
{
    &m[i]
}

/// Trusted: `IndexMap`'s `IndexMut<usize>` replaces the value of entry `i`,
/// keeping its key and position.
#[verifier::external_body]
fn session_assets_map_set_at(m: &mut IndexMap<String, SessionAssets>, i: usize, value: SessionAssets)
    requires
        i < session_assets_entries(*old(m)).len(),
    ensures
        session_assets_entries(*final(m)) == session_assets_entries(*old(m)).update(i as int, (session_assets_entries(*old(m))[i as int].0, value)),
{
    m[i] = value;
}

/// Trusted: `IndexMap::insert` replaces the value of an existing key in
/// place; a new key is appended at the end.
#[verifier::external_body]
fn session_assets_map_insert(m: &mut IndexMap<String, SessionAssets>, key: String, value: SessionAssets)
    ensures
        session_assets_entries(*final(m)) == seq_insert_entry(session_assets_entries(*old(m)), key@, value),
{
    m.insert(key, value);
}

/// Trusted: `IndexMap::shift_remove_index` removes entry `i`, shifting the
/// later entries down, and answers it; `requires` keeps `i` in range, where
/// it always answers an entry.
#[verifier::external_body]
fn session_assets_map_remove_at(m: &mut IndexMap<String, SessionAssets>, i: usize) -> (r: (String, SessionAssets))
    requires
        i < session_assets_entries(*old(m)).len(),
    ensures
        session_assets_entries(*final(m)) == session_assets_entries(*old(m)).remove(i as int),
        (r.0@, r.1) == session_assets_entries(*old(m))[i as int],
{
    m.shift_remove_index(i).unwrap()
}

/// Trusted: `IndexMap::clear` removes every entry.
#[verifier::external_body]
fn session_assets_map_clear(m: &mut IndexMap<String, SessionAssets>)
    ensures
        session_assets_entries(*final(m)) == Seq::<(Seq<char>, SessionAssets)>::empty(),
{
    m.clear()
}

/// An insertion-ordered table of the sessions' attachments, by session key, held in an `IndexMap`.
#[derive(Debug)]
pub struct SessionTable {
    map: IndexMap<String, SessionAssets>,
}

impl SessionTable {
    /// The entries in insertion order, keys as sequences.
    pub closed spec fn seq(&self) -> Seq<(Seq<char>, SessionAssets)> {
        session_assets_entries(self.map)
    }

    /// The keys never repeat.
    pub open spec fn wf(&self) -> bool {
        distinct_keys(self.seq())
    }

    /// The map the table denotes.
    pub open spec fn view(&self) -> Map<Seq<char>, SessionAssets> {
        entries_map(self.seq())
    }

    /// An empty table.
    pub fn new() -> (r: Self)
        ensures
            r.wf(),
            r.seq() == Seq::<(Seq<char>, SessionAssets)>::empty(),
            r@ == Map::<Seq<char>, SessionAssets>::empty(),
    {
        let r = SessionTable { map: session_assets_map_new() };
        assert(r@ =~= Map::<Seq<char>, SessionAssets>::empty());
        r
    }

    /// How many entries the table holds.
    pub fn len(&self) -> (r: usize)
        requires
            self.wf(),
        ensures
            r == self.seq().len(),
            r == self@.len(),
            self@.dom().finite(),
    {
        proof {
            lemma_entries_map_len(self.seq());
        }
        session_assets_map_len(&self.map)
    }

    /// The position of `key`, if the table holds it.
    pub fn index_of(&self, key: &str) -> (r: Option<usize>)
        requires
            self.wf(),
        ensures
            r matches Some(i) ==> i < self.seq().len() && self.seq()[i as int].0 == key@,
            r is Some == self@.contains_key(key@),
            r matches Some(i) ==> self@[key@] == self.seq()[i as int].1,
    {
        let r = session_assets_map_index_of(&self.map, key);
        proof {
            match r {
                Some(i) => {
                    lemma_entries_map_index(self.seq(), i as int);
                },
                None => {
                    lemma_entries_map_absent(self.seq(), key@);
                },
            }
        }
        r
    }

    /// The key of entry `i`.
    pub fn key_at(&self, i: usize) -> (r: &str)
        requires
            i < self.seq().len(),
        ensures
            r@ == self.seq()[i as int].0,
    {
        session_assets_map_key_at(&self.map, i)
    }

    /// The value of entry `i`.
    pub fn value_at(&self, i: usize) -> (r: &SessionAssets)
        requires
            i < self.seq().len(),
        ensures
            *r == self.seq()[i as int].1,
    {
        session_assets_map_value_at(&self.map, i)
    }

    /// The value held for `key`.
    pub fn get(&self, key: &str) -> (r: Option<&SessionAssets>)
        requires
            self.wf(),
        ensures
            r is Some == self@.contains_key(key@),
            r matches Some(v) ==> *v == self@[key@],
    {
        match self.index_of(key) {
            Some(i) => Some(session_assets_map_value_at(&self.map, i)),
            None => None,
        }
    }

    /// Replace the value of entry `i`, keeping its position.
    pub fn set_value_at(&mut self, i: usize, value: SessionAssets)
        requires
            old(self).wf(),
            i < old(self).seq().len(),
        ensures
            final(self).wf(),
            final(self).seq() == old(self).seq().update(i as int, (old(self).seq()[i as int].0, value)),
            final(self)@ == old(self)@.insert(old(self).seq()[i as int].0, value),
    {
        proof {
            lemma_entries_map_update(self.seq(), i as int, value);
        }
        session_assets_map_set_at(&mut self.map, i, value);
    }

    /// Bind `key` to `value`: in place when the key is held, at the end
    /// otherwise.
    pub fn insert(&mut self, key: String, value: SessionAssets)
        requires
            old(self).wf(),
        ensures
            final(self).wf(),
            final(self)@ == old(self)@.insert(key@, value),
            old(self)@.contains_key(key@) ==> final(self).seq().len() == old(self).seq().len(),
            !old(self)@.contains_key(key@) ==> final(self).seq() == old(self).seq().push((key@, value)),
    {
        match self.index_of(key.as_str()) {
            Some(i) => {
                self.set_value_at(i, value);
            },
            None => {
                proof {
                    lemma_entries_map_push(self.seq(), key@, value);
                    assert(!has_key(self.seq(), key@));
                }
                session_assets_map_insert(&mut self.map, key, value);
            },
        }
    }

    /// Remove entry `i`, keeping the order of the rest.
    pub fn remove_at(&mut self, i: usize) -> (r: (String, SessionAssets))
        requires
            old(self).wf(),
            i < old(self).seq().len(),
        ensures
            final(self).wf(),
            final(self).seq() == old(self).seq().remove(i as int),
            final(self)@ == old(self)@.remove(old(self).seq()[i as int].0),
            (r.0@, r.1) == old(self).seq()[i as int],
    {
        proof {
            lemma_entries_map_remove(self.seq(), i as int);
        }
        session_assets_map_remove_at(&mut self.map, i)
    }

    /// Remove `key`, answering its value.
    pub fn remove(&mut self, key: &str) -> (r: Option<SessionAssets>)
        requires
            old(self).wf(),
        ensures
            final(self).wf(),
            final(self)@ == old(self)@.remove(key@),
            r is Some == old(self)@.contains_key(key@),
            r matches Some(v) ==> v == old(self)@[key@],
            final(self).seq().len() <= old(self).seq().len(),
    {
        match self.index_of(key) {
            Some(i) => {
                let (_, v) = self.remove_at(i);
                Some(v)
            },
            None => {
                assert(old(self)@.remove(key@) =~= old(self)@);
                None
            },
        }
    }

    /// Remove every entry.
    pub fn clear(&mut self)
        ensures
            final(self).wf(),
            final(self)@ == Map::<Seq<char>, SessionAssets>::empty(),
            final(self).seq() == Seq::<(Seq<char>, SessionAssets)>::empty(),
    {
        session_assets_map_clear(&mut self.map);
        assert(self@ =~= Map::<Seq<char>, SessionAssets>::empty());
    }
}

/// What an `IndexMap<String, String>` holds, in order: its entries, each key taken as a
/// character sequence.
pub uninterp spec fn turn_text_entries(m: IndexMap<String, String>) -> Seq<(Seq<char>, String)>;

/// Trusted: `IndexMap::new` holds no entries.
#[verifier::external_body]
fn turn_text_map_new() -> (m: IndexMap<String, String>)
    ensures
        turn_text_entries(m) == Seq::<(Seq<char>, String)>::empty(),
{
    IndexMap::new()
}

/// Trusted: `IndexMap::len` is the number of entries.
#[verifier::external_body]
fn turn_text_map_len(m: &IndexMap<String, String>) -> (r: usize)
    ensures
        r == turn_text_entries(*m).len(),
{
    m.len()
}

/// Trusted: `IndexMap::get_index_of` is the position of the entry whose key
/// equals `key`, and `None` when no entry has that key.
#[verifier::external_body]
fn turn_text_map_index_of(m: &IndexMap<String, String>, key: &str) -> (r: Option<usize>)
    ensures
        r matches Some(i) ==> i < turn_text_entries(*m).len() && turn_text_entries(*m)[i as int].0 == key@,
        r is None ==> forall|i: int| 0 <= i < turn_text_entries(*m).len() ==> turn_text_entries(*m)[i].0 != key@,
{
    m.get_index_of(key)
}

/// Trusted: `IndexMap::get_index` answers the key of entry `i`.
#[verifier::external_body]
fn turn_text_map_key_at(m: &IndexMap<String, String>, i: usize) -> (r: &str)
    requires
        i < turn_text_entries(*m).len(),
    ensures
        r@ == turn_text_entries(*m)[i as int].0,
{
    m.get_index(i).map_or("", |entry| entry.0.as_str())
}

/// Trusted: `IndexMap`'s `Index<usize>` answers the value of entry `i`.
#[verifier::external_body]
fn turn_text_map_value_at(m: &IndexMap<String, String>, i: usize) -> (r: &String)
    requires
        i < turn_text_entries(*m).len(),
    ensures
        *r == turn_text_entries(*m)[i as int].1,
{
    &m[i]
}

/// Trusted: `IndexMap`'s `IndexMut<usize>` replaces the value of entry `i`,
/// keeping its key and position.
#[verifier::external_body]
fn turn_text_map_set_at(m: &mut IndexMap<String, String>, i: usize, value: String)
    requires
        i < turn_text_entries(*old(m)).len(),
    ensures
        turn_text_entries(*final(m)) == turn_text_entries(*old(m)).update(i as int, (turn_text_entries(*old(m))[i as int].0, value)),
{
    m[i] = value;
}

/// Trusted: `IndexMap::insert` replaces the value of an existing key in
/// place; a new key is appended at the end.
#[verifier::external_body]
fn turn_text_map_insert(m: &mut IndexMap<String, String>, key: String, value: String)
    ensures
        turn_text_entries(*final(m)) == seq_insert_entry(turn_text_entries(*old(m)), key@, value),
{
    m.insert(key, value);
}

/// Trusted: `IndexMap::shift_remove_index` removes entry `i`, shifting the
/// later entries down, and answers it; `requires` keeps `i` in range, where
/// it always answers an entry.
#[verifier::external_body]
fn turn_text_map_remove_at(m: &mut IndexMap<String, String>, i: usize) -> (r: (String, String))
    requires
        i < turn_text_entries(*old(m)).len(),
    ensures
        turn_text_entries(*final(m)) == turn_text_entries(*old(m)).remove(i as int),
        (r.0@, r.1) == turn_text_entries(*old(m))[i as int],
{
    m.shift_remove_index(i).unwrap()
}

/// Trusted: `IndexMap::clear` removes every entry.
#[verifier::external_body]
fn turn_text_map_clear(m: &mut IndexMap<String, String>)
    ensures
        turn_text_entries(*final(m)) == Seq::<(Seq<char>, String)>::empty(),
{
    m.clear()
}

/// An insertion-ordered table of the turns' transcripts, by turn id, held in an `IndexMap`.
#[derive(Debug)]
pub struct TurnTextTable {
    map: IndexMap<String, String>,
}

impl TurnTextTable {
    /// The entries in insertion order, keys as sequences.
    pub closed spec fn seq(&self) -> Seq<(Seq<char>, String)> {
        turn_text_entries(self.map)
    }

    /// The keys never repeat.
    pub open spec fn wf(&self) -> bool {
        distinct_keys(self.seq())
    }

    /// The map the table denotes.
    pub open spec fn view(&self) -> Map<Seq<char>, String> {
        entries_map(self.seq())
    }

    /// An empty table.
    pub fn new() -> (r: Self)
        ensures
            r.wf(),
            r.seq() == Seq::<(Seq<char>, String)>::empty(),
            r@ == Map::<Seq<char>, String>::empty(),
    {
        let r = TurnTextTable { map: turn_text_map_new() };
        assert(r@ =~= Map::<Seq<char>, String>::empty());
        r
    }

    /// How many entries the table holds.
    pub fn len(&self) -> (r: usize)
        requires
            self.wf(),
        ensures
            r == self.seq().len(),
            r == self@.len(),
            self@.dom().finite(),
    {
        proof {
            lemma_entries_map_len(self.seq());
        }
        turn_text_map_len(&self.map)
    }

    /// The position of `key`, if the table holds it.
    pub fn index_of(&self, key: &str) -> (r: Option<usize>)
        requires
            self.wf(),
        ensures
            r matches Some(i) ==> i < self.seq().len() && self.seq()[i as int].0 == key@,
            r is Some == self@.contains_key(key@),
            r matches Some(i) ==> self@[key@] == self.seq()[i as int].1,
    {
        let r = turn_text_map_index_of(&self.map, key);
        proof {
            match r {
                Some(i) => {
                    lemma_entries_map_index(self.seq(), i as int);
                },
                None => {
                    lemma_entries_map_absent(self.seq(), key@);
                },
            }
        }
        r
    }

    /// The key of entry `i`.
    pub fn key_at(&self, i: usize) -> (r: &str)
        requires
            i < self.seq().len(),
        ensures
            r@ == self.seq()[i as int].0,
    {
        turn_text_map_key_at(&self.map, i)
    }

    /// The value of entry `i`.
    pub fn value_at(&self, i: usize) -> (r: &String)
        requires
            i < self.seq().len(),
        ensures
            *r == self.seq()[i as int].1,
    {
        turn_text_map_value_at(&self.map, i)
    }

    /// The value held for `key`.
    pub fn get(&self, key: &str) -> (r: Option<&String>)
        requires
            self.wf(),
        ensures
            r is Some == self@.contains_key(key@),
            r matches Some(v) ==> *v == self@[key@],
    {
        match self.index_of(key) {
            Some(i) => Some(turn_text_map_value_at(&self.map, i)),
            None => None,
        }
    }

    /// Replace the value of entry `i`, keeping its position.
    pub fn set_value_at(&mut self, i: usize, value: String)
        requires
            old(self).wf(),
            i < old(self).seq().len(),
        ensures
            final(self).wf(),
            final(self).seq() == old(self).seq().update(i as int, (old(self).seq()[i as int].0, value)),
            final(self)@ == old(self)@.insert(old(self).seq()[i as int].0, value),
    {
        proof {
            lemma_entries_map_update(self.seq(), i as int, value);
        }
        turn_text_map_set_at(&mut self.map, i, value);
    }

    /// Bind `key` to `value`: in place when the key is held, at the end
    /// otherwise.
    pub fn insert(&mut self, key: String, value: String)
        requires
            old(self).wf(),
        ensures
            final(self).wf(),
            final(self)@ == old(self)@.insert(key@, value),
            old(self)@.contains_key(key@) ==> final(self).seq().len() == old(self).seq().len(),
            !old(self)@.contains_key(key@) ==> final(self).seq() == old(self).seq().push((key@, value)),
    {
        match self.index_of(key.as_str()) {
            Some(i) => {
                self.set_value_at(i, value);
            },
            None => {
                proof {
                    lemma_entries_map_push(self.seq(), key@, value);
                    assert(!has_key(self.seq(), key@));
                }
                turn_text_map_insert(&mut self.map, key, value);
            },
        }
    }

    /// Remove entry `i`, keeping the order of the rest.
    pub fn remove_at(&mut self, i: usize) -> (r: (String, String))
        requires
            old(self).wf(),
            i < old(self).seq().len(),
        ensures
            final(self).wf(),
            final(self).seq() == old(self).seq().remove(i as int),
            final(self)@ == old(self)@.remove(old(self).seq()[i as int].0),
            (r.0@, r.1) == old(self).seq()[i as int],
    {
        proof {
            lemma_entries_map_remove(self.seq(), i as int);
        }
        turn_text_map_remove_at(&mut self.map, i)
    }

    /// Remove `key`, answering its value.
    pub fn remove(&mut self, key: &str) -> (r: Option<String>)
        requires
            old(self).wf(),
        ensures
            final(self).wf(),
            final(self)@ == old(self)@.remove(key@),
            r is Some == old(self)@.contains_key(key@),
            r matches Some(v) ==> v == old(self)@[key@],
            final(self).seq().len() <= old(self).seq().len(),
    {
        match self.index_of(key) {
            Some(i) => {
                let (_, v) = self.remove_at(i);
                Some(v)
            },
            None => {
                assert(old(self)@.remove(key@) =~= old(self)@);
                None
            },
        }
    }

    /// Remove every entry.
    pub fn clear(&mut self)
        ensures
            final(self).wf(),
            final(self)@ == Map::<Seq<char>, String>::empty(),
            final(self).seq() == Seq::<(Seq<char>, String)>::empty(),
    {
        turn_text_map_clear(&mut self.map);
        assert(self@ =~= Map::<Seq<char>, String>::empty());
    }
}

/// What an `IndexMap<String, Vec<InputPart>>` holds, in order: its entries, each key taken as a
/// character sequence.
pub uninterp spec fn turn_parts_entries(m: IndexMap<String, Vec<InputPart>>) -> Seq<(Seq<char>, Vec<InputPart>)>;

/// Trusted: `IndexMap::new` holds no entries.
#[verifier::external_body]
fn turn_parts_map_new() -> (m: IndexMap<String, Vec<InputPart>>)
    ensures
        turn_parts_entries(m) == Seq::<(Seq<char>, Vec<InputPart>)>::empty(),
{
    IndexMap::new()
}

/// Trusted: `IndexMap::len` is the number of entries.
#[verifier::external_body]
fn turn_parts_map_len(m: &IndexMap<String, Vec<InputPart>>) -> (r: usize)
    ensures
        r == turn_parts_entries(*m).len(),
{
    m.len()
}

/// Trusted: `IndexMap::get_index_of` is the position of the entry whose key
/// equals `key`, and `None` when no entry has that key.
#[verifier::external_body]
fn turn_parts_map_index_of(m: &IndexMap<String, Vec<InputPart>>, key: &str) -> (r: Option<usize>)
    ensures
        r matches Some(i) ==> i < turn_parts_entries(*m).len() && turn_parts_entries(*m)[i as int].0 == key@,
        r is None ==> forall|i: int| 0 <= i < turn_parts_entries(*m).len() ==> turn_parts_entries(*m)[i].0 != key@,
{
    m.get_index_of(key)
}

/// Trusted: `IndexMap::get_index` answers the key of entry `i`.
#[verifier::external_body]
fn turn_parts_map_key_at(m: &IndexMap<String, Vec<InputPart>>, i: usize) -> (r: &str)
    requires
        i < turn_parts_entries(*m).len(),
    ensures
        r@ == turn_parts_entries(*m)[i as int].0,
{
    m.get_index(i).map_or("", |entry| entry.0.as_str())
}

/// Trusted: `IndexMap`'s `Index<usize>` answers the value of entry `i`.
#[verifier::external_body]
fn turn_parts_map_value_at(m: &IndexMap<String, Vec<InputPart>>, i: usize) -> (r: &Vec<InputPart>)
    requires
        i < turn_parts_entries(*m).len(),
    ensures
        *r == turn_parts_entries(*m)[i as int].1,
{
    &m[i]
}

/// Trusted: `IndexMap`'s `IndexMut<usize>` replaces the value of entry `i`,
/// keeping its key and position.
#[verifier::external_body]
fn turn_parts_map_set_at(m: &mut IndexMap<String, Vec<InputPart>>, i: usize, value: Vec<InputPart>)
    requires
        i < turn_parts_entries(*old(m)).len(),
    ensures
        turn_parts_entries(*final(m)) == turn_parts_entries(*old(m)).update(i as int, (turn_parts_entries(*old(m))[i as int].0, value)),
{
    m[i] = value;
}

/// Trusted: `IndexMap::insert` replaces the value of an existing key in
/// place; a new key is appended at the end.
#[verifier::external_body]
fn turn_parts_map_insert(m: &mut IndexMap<String, Vec<InputPart>>, key: String, value: Vec<InputPart>)
    ensures
        turn_parts_entries(*final(m)) == seq_insert_entry(turn_parts_entries(*old(m)), key@, value),
{
    m.insert(key, value);
}

/// Trusted: `IndexMap::shift_remove_index` removes entry `i`, shifting the
/// later entries down, and answers it; `requires` keeps `i` in range, where
/// it always answers an entry.
#[verifier::external_body]
fn turn_parts_map_remove_at(m: &mut IndexMap<String, Vec<InputPart>>, i: usize) -> (r: (String, Vec<InputPart>))
    requires
        i < turn_parts_entries(*old(m)).len(),
    ensures
        turn_parts_entries(*final(m)) == turn_parts_entries(*old(m)).remove(i as int),
        (r.0@, r.1) == turn_parts_entries(*old(m))[i as int],
{
    m.shift_remove_index(i).unwrap()
}

/// Trusted: `IndexMap::clear` removes every entry.
#[verifier::external_body]
fn turn_parts_map_clear(m: &mut IndexMap<String, Vec<InputPart>>)
    ensures
        turn_parts_entries(*final(m)) == Seq::<(Seq<char>, Vec<InputPart>)>::empty(),
{
    m.clear()
}

/// An insertion-ordered table of the turns' attachments, by turn id, held in an `IndexMap`.
#[derive(Debug)]
pub struct TurnPartsTable {
    map: IndexMap<String, Vec<InputPart>>,
}

impl TurnPartsTable {
    /// The entries in insertion order, keys as sequences.
    pub closed spec fn seq(&self) -> Seq<(Seq<char>, Vec<InputPart>)> {
        turn_parts_entries(self.map)
    }

    /// The keys never repeat.
    pub open spec fn wf(&self) -> bool {
        distinct_keys(self.seq())
    }

    /// The map the table denotes.
    pub open spec fn view(&self) -> Map<Seq<char>, Vec<InputPart>> {
        entries_map(self.seq())
    }

    /// An empty table.
    pub fn new() -> (r: Self)
        ensures
            r.wf(),
            r.seq() == Seq::<(Seq<char>, Vec<InputPart>)>::empty(),
            r@ == Map::<Seq<char>, Vec<InputPart>>::empty(),
    {
        let r = TurnPartsTable { map: turn_parts_map_new() };
        assert(r@ =~= Map::<Seq<char>, Vec<InputPart>>::empty());
        r
    }

    /// How many entries the table holds.
    pub fn len(&self) -> (r: usize)
        requires
            self.wf(),
        ensures
            r == self.seq().len(),
            r == self@.len(),
            self@.dom().finite(),
    {
        proof {
            lemma_entries_map_len(self.seq());
        }
        turn_parts_map_len(&self.map)
    }

    /// The position of `key`, if the table holds it.
    pub fn index_of(&self, key: &str) -> (r: Option<usize>)
        requires
            self.wf(),
        ensures
            r matches Some(i) ==> i < self.seq().len() && self.seq()[i as int].0 == key@,
            r is Some == self@.contains_key(key@),
            r matches Some(i) ==> self@[key@] == self.seq()[i as int].1,
    {
        let r = turn_parts_map_index_of(&self.map, key);
        proof {
            match r {
                Some(i) => {
                    lemma_entries_map_index(self.seq(), i as int);
                },
                None => {
                    lemma_entries_map_absent(self.seq(), key@);
                },
            }
        }
        r
    }

    /// The key of entry `i`.
    pub fn key_at(&self, i: usize) -> (r: &str)
        requires
            i < self.seq().len(),
        ensures
            r@ == self.seq()[i as int].0,
    {
        turn_parts_map_key_at(&self.map, i)
    }

    /// The value of entry `i`.
    pub fn value_at(&self, i: usize) -> (r: &Vec<InputPart>)
        requires
            i < self.seq().len(),
        ensures
            *r == self.seq()[i as int].1,
    {
        turn_parts_map_value_at(&self.map, i)
    }

    /// The value held for `key`.
    pub fn get(&self, key: &str) -> (r: Option<&Vec<InputPart>>)
        requires
            self.wf(),
        ensures
            r is Some == self@.contains_key(key@),
            r matches Some(v) ==> *v == self@[key@],
    {
        match self.index_of(key) {
            Some(i) => Some(turn_parts_map_value_at(&self.map, i)),
            None => None,
        }
    }

    /// Replace the value of entry `i`, keeping its position.
    pub fn set_value_at(&mut self, i: usize, value: Vec<InputPart>)
        requires
            old(self).wf(),
            i < old(self).seq().len(),
        ensures
            final(self).wf(),
            final(self).seq() == old(self).seq().update(i as int, (old(self).seq()[i as int].0, value)),
            final(self)@ == old(self)@.insert(old(self).seq()[i as int].0, value),
    {
        proof {
            lemma_entries_map_update(self.seq(), i as int, value);
        }
        turn_parts_map_set_at(&mut self.map, i, value);
    }

    /// Bind `key` to `value`: in place when the key is held, at the end
    /// otherwise.
    pub fn insert(&mut self, key: String, value: Vec<InputPart>)
        requires
            old(self).wf(),
        ensures
            final(self).wf(),
            final(self)@ == old(self)@.insert(key@, value),
            old(self)@.contains_key(key@) ==> final(self).seq().len() == old(self).seq().len(),
            !old(self)@.contains_key(key@) ==> final(self).seq() == old(self).seq().push((key@, value)),
    {
        match self.index_of(key.as_str()) {
            Some(i) => {
                self.set_value_at(i, value);
            },
            None => {
                proof {
                    lemma_entries_map_push(self.seq(), key@, value);
                    assert(!has_key(self.seq(), key@));
                }
                turn_parts_map_insert(&mut self.map, key, value);
            },
        }
    }

    /// Remove entry `i`, keeping the order of the rest.
    pub fn remove_at(&mut self, i: usize) -> (r: (String, Vec<InputPart>))
        requires
            old(self).wf(),
            i < old(self).seq().len(),
        ensures
            final(self).wf(),
            final(self).seq() == old(self).seq().remove(i as int),
            final(self)@ == old(self)@.remove(old(self).seq()[i as int].0),
            (r.0@, r.1) == old(self).seq()[i as int],
    {
        proof {
            lemma_entries_map_remove(self.seq(), i as int);
        }
        turn_parts_map_remove_at(&mut self.map, i)
    }

    /// Remove `key`, answering its value.
    pub fn remove(&mut self, key: &str) -> (r: Option<Vec<InputPart>>)
        requires
            old(self).wf(),
        ensures
            final(self).wf(),
            final(self)@ == old(self)@.remove(key@),
            r is Some == old(self)@.contains_key(key@),
            r matches Some(v) ==> v == old(self)@[key@],
            final(self).seq().len() <= old(self).seq().len(),
    {
        match self.index_of(key) {
            Some(i) => {
                let (_, v) = self.remove_at(i);
                Some(v)
            },
            None => {
                assert(old(self)@.remove(key@) =~= old(self)@);
                None
            },
        }
    }

    /// Remove every entry.
    pub fn clear(&mut self)
        ensures
            final(self).wf(),
            final(self)@ == Map::<Seq<char>, Vec<InputPart>>::empty(),
            final(self).seq() == Seq::<(Seq<char>, Vec<InputPart>)>::empty(),
    {
        turn_parts_map_clear(&mut self.map);
        assert(self@ =~= Map::<Seq<char>, Vec<InputPart>>::empty());
    }
}

} // verus!
