//! The insertion-ordered maps and sets of the `indexmap` crate, as the
//! logic of this crate uses them.
//!
//! Each instantiation gets a name for what it holds — its entries in order,
//! keys taken as character sequences — and one trusted wrapper per method the
//! logic calls, whose contract says what that method does to the entries.

use indexmap::{IndexMap, IndexSet};
use vstd::prelude::*;
use crate::strmap::{distinct_keys, has_key, seq_insert_entry, seq_remove_entry, value_of};
use crate::announcement::window::QueuedAudio;
use crate::turn::TurnRef;
use crate::response::ResponseContext;
use crate::tools::handler::DeferredBatch;
use crate::announcement::format::Announcement;

verus! {

#[verifier::external_type_specification]
#[verifier::external_body]
#[verifier::reject_recursive_types(K)]
#[verifier::reject_recursive_types(V)]
#[verifier::reject_recursive_types(S)]
pub struct ExIndexMap<K, V, S>(IndexMap<K, V, S>);

#[verifier::external_type_specification]
#[verifier::external_body]
#[verifier::reject_recursive_types(T)]
#[verifier::reject_recursive_types(S)]
pub struct ExIndexSet<T, S>(IndexSet<T, S>);

/// What an `IndexSet<String>` holds, in order, each string taken as a
/// character sequence.
pub uninterp spec fn string_set_entries(s: IndexSet<String>) -> Seq<Seq<char>>;

/// The strings of a set are pairwise distinct.
pub open spec fn distinct_strings(s: Seq<Seq<char>>) -> bool {
    forall|i: int, j: int| 0 <= i < j < s.len() ==> #[trigger] s[i] != #[trigger] s[j]
}

/// Trusted: `IndexSet::new` holds nothing.
#[verifier::external_body]
pub(crate) fn string_set_new() -> (s: IndexSet<String>)
    ensures
        string_set_entries(s) == Seq::<Seq<char>>::empty(),
{
    IndexSet::new()
}

/// Trusted: `IndexSet::len` is the number of members.
#[verifier::external_body]
pub(crate) fn string_set_len(s: &IndexSet<String>) -> (r: usize)
    ensures
        r == string_set_entries(*s).len(),
{
    s.len()
}

/// Trusted: `IndexSet::contains` answers whether `value` is a member.
#[verifier::external_body]
pub(crate) fn string_set_contains(s: &IndexSet<String>, value: &str) -> (r: bool)
    ensures
        r == string_set_entries(*s).contains(value@),
{
    s.contains(value)
}

/// Trusted: `IndexSet::insert` appends a value that is not yet a member and
/// leaves the set unchanged otherwise; it answers whether it appended.
#[verifier::external_body]
pub(crate) fn string_set_insert(s: &mut IndexSet<String>, value: String) -> (r: bool)
    ensures
        distinct_strings(string_set_entries(*final(s))),
        r == !string_set_entries(*old(s)).contains(value@),
        r ==> string_set_entries(*final(s)) == string_set_entries(*old(s)).push(value@),
        !r ==> string_set_entries(*final(s)) == string_set_entries(*old(s)),
{
    s.insert(value)
}

/// Trusted: `IndexSet::shift_remove` removes `value`, keeping the order of
/// the rest; it answers whether it was a member.
#[verifier::external_body]
pub(crate) fn string_set_shift_remove(s: &mut IndexSet<String>, value: &str) -> (r: bool)
    ensures
        distinct_strings(string_set_entries(*final(s))),
        r == string_set_entries(*old(s)).contains(value@),
        r ==> string_set_entries(*final(s)) == string_set_entries(*old(s)).remove(
            string_set_entries(*old(s)).index_of(value@),
        ),
        !r ==> string_set_entries(*final(s)) == string_set_entries(*old(s)),
{
    s.shift_remove(value)
}

/// Trusted: `IndexSet::shift_remove_index(0)` removes the first member and
/// answers it, keeping the order of the rest; on an empty set it answers
/// `None`.
#[verifier::external_body]
pub(crate) fn string_set_shift_remove_first(s: &mut IndexSet<String>) -> (r: Option<String>)
    ensures
        distinct_strings(string_set_entries(*final(s))),
        string_set_entries(*old(s)).len() > 0 ==> string_set_entries(*final(s)) == string_set_entries(*old(s)).remove(0)
            && (r matches Some(v) && v@ == string_set_entries(*old(s))[0]),
        string_set_entries(*old(s)).len() == 0 ==> string_set_entries(*final(s)) == string_set_entries(*old(s)) && r is None,
{
    s.shift_remove_index(0)
}

/// Trusted: `IndexSet::clear` removes every member.
#[verifier::external_body]
pub(crate) fn string_set_clear(s: &mut IndexSet<String>)
    ensures
        string_set_entries(*final(s)) == Seq::<Seq<char>>::empty(),
{
    s.clear()
}

/// What an `IndexMap<String, QueuedAudio>` holds, in order: its entries, each key
/// taken as a character sequence.
pub uninterp spec fn queued_audio_entries(m: IndexMap<String, QueuedAudio>) -> Seq<(Seq<char>, QueuedAudio)>;

/// Trusted: `IndexMap::new` holds no entries.
#[verifier::external_body]
pub(crate) fn queued_audio_map_new() -> (m: IndexMap<String, QueuedAudio>)
    ensures
        queued_audio_entries(m) == Seq::<(Seq<char>, QueuedAudio)>::empty(),
{
    IndexMap::new()
}

/// Trusted: `IndexMap::len` is the number of entries.
#[verifier::external_body]
pub(crate) fn queued_audio_map_len(m: &IndexMap<String, QueuedAudio>) -> (r: usize)
    ensures
        r == queued_audio_entries(*m).len(),
{
    m.len()
}

/// Trusted: `IndexMap::insert` replaces the value of an existing key in
/// place and answers the old value; a new key is appended at the end.
#[verifier::external_body]
pub(crate) fn queued_audio_map_insert(m: &mut IndexMap<String, QueuedAudio>, key: String, value: QueuedAudio) -> (r: Option<QueuedAudio>)
    ensures
        distinct_keys(queued_audio_entries(*final(m))),
        queued_audio_entries(*final(m)) == seq_insert_entry(queued_audio_entries(*old(m)), key@, value),
        r == if has_key(queued_audio_entries(*old(m)), key@) {
            Some(value_of(queued_audio_entries(*old(m)), key@))
        } else {
            None
        },
{
    m.insert(key, value)
}

/// Trusted: `IndexMap::shift_remove` removes the entry for `key`, keeping
/// the order of the rest, and answers its value.
#[verifier::external_body]
pub(crate) fn queued_audio_map_shift_remove(m: &mut IndexMap<String, QueuedAudio>, key: &str) -> (r: Option<QueuedAudio>)
    ensures
        distinct_keys(queued_audio_entries(*final(m))),
        queued_audio_entries(*final(m)) == seq_remove_entry(queued_audio_entries(*old(m)), key@),
        r == if has_key(queued_audio_entries(*old(m)), key@) {
            Some(value_of(queued_audio_entries(*old(m)), key@))
        } else {
            None
        },
{
    m.shift_remove(key)
}

/// Trusted: `IndexMap::clear` removes every entry.
#[verifier::external_body]
pub(crate) fn queued_audio_map_clear(m: &mut IndexMap<String, QueuedAudio>)
    ensures
        queued_audio_entries(*final(m)) == Seq::<(Seq<char>, QueuedAudio)>::empty(),
{
    m.clear()
}

/// What an `IndexMap<String, TurnRef>` holds, in order: its entries, each key
/// taken as a character sequence.
pub uninterp spec fn turn_ref_entries(m: IndexMap<String, TurnRef>) -> Seq<(Seq<char>, TurnRef)>;

/// Trusted: `IndexMap::new` holds no entries.
#[verifier::external_body]
pub(crate) fn turn_ref_map_new() -> (m: IndexMap<String, TurnRef>)
    ensures
        turn_ref_entries(m) == Seq::<(Seq<char>, TurnRef)>::empty(),
{
    IndexMap::new()
}

/// Trusted: `IndexMap::len` is the number of entries.
#[verifier::external_body]
pub(crate) fn turn_ref_map_len(m: &IndexMap<String, TurnRef>) -> (r: usize)
    ensures
        r == turn_ref_entries(*m).len(),
{
    m.len()
}

/// Trusted: `IndexMap::get_index_of` is the position of the entry whose key
/// equals `key`, and `None` when no entry has that key.
#[verifier::external_body]
pub(crate) fn turn_ref_map_index_of(m: &IndexMap<String, TurnRef>, key: &str) -> (r: Option<usize>)
    ensures
        r matches Some(i) ==> i < turn_ref_entries(*m).len() && turn_ref_entries(*m)[i as int].0 == key@,
        r is None ==> forall|i: int| 0 <= i < turn_ref_entries(*m).len() ==> turn_ref_entries(*m)[i].0 != key@,
{
    m.get_index_of(key)
}

/// Trusted: `IndexMap`'s `Index<usize>` answers the value of entry `i`.
#[verifier::external_body]
pub(crate) fn turn_ref_map_value_at(m: &IndexMap<String, TurnRef>, i: usize) -> (r: &TurnRef)
    requires
        i < turn_ref_entries(*m).len(),
    ensures
        *r == turn_ref_entries(*m)[i as int].1,
{
    &m[i]
}

/// Trusted: `IndexMap::insert` replaces the value of an existing key in
/// place and answers the old value; a new key is appended at the end.
#[verifier::external_body]
pub(crate) fn turn_ref_map_insert(m: &mut IndexMap<String, TurnRef>, key: String, value: TurnRef) -> (r: Option<TurnRef>)
    ensures
        distinct_keys(turn_ref_entries(*final(m))),
        turn_ref_entries(*final(m)) == seq_insert_entry(turn_ref_entries(*old(m)), key@, value),
        r == if has_key(turn_ref_entries(*old(m)), key@) {
            Some(value_of(turn_ref_entries(*old(m)), key@))
        } else {
            None
        },
{
    m.insert(key, value)
}

/// Trusted: `IndexMap::shift_remove_index(0)` removes the first entry and
/// answers it; on an empty map it answers `None`.
#[verifier::external_body]
pub(crate) fn turn_ref_map_shift_remove_first(m: &mut IndexMap<String, TurnRef>) -> (r: Option<(String, TurnRef)>)
    ensures
        distinct_keys(turn_ref_entries(*final(m))),
        turn_ref_entries(*old(m)).len() > 0 ==> turn_ref_entries(*final(m)) == turn_ref_entries(*old(m)).remove(0) && (r matches Some(e)
            && (e.0@, e.1) == turn_ref_entries(*old(m))[0]),
        turn_ref_entries(*old(m)).len() == 0 ==> turn_ref_entries(*final(m)) == turn_ref_entries(*old(m)) && r is None,
{
    m.shift_remove_index(0)
}

/// Trusted: `IndexMap::clear` removes every entry.
#[verifier::external_body]
pub(crate) fn turn_ref_map_clear(m: &mut IndexMap<String, TurnRef>)
    ensures
        turn_ref_entries(*final(m)) == Seq::<(Seq<char>, TurnRef)>::empty(),
{
    m.clear()
}

/// What an `IndexMap<String, ResponseContext>` holds, in order: its entries, each key
/// taken as a character sequence.
pub uninterp spec fn response_context_entries(m: IndexMap<String, ResponseContext>) -> Seq<(Seq<char>, ResponseContext)>;

/// Trusted: `IndexMap::new` holds no entries.
#[verifier::external_body]
pub(crate) fn response_context_map_new() -> (m: IndexMap<String, ResponseContext>)
    ensures
        response_context_entries(m) == Seq::<(Seq<char>, ResponseContext)>::empty(),
{
    IndexMap::new()
}

/// Trusted: `IndexMap::len` is the number of entries.
#[verifier::external_body]
pub(crate) fn response_context_map_len(m: &IndexMap<String, ResponseContext>) -> (r: usize)
    ensures
        r == response_context_entries(*m).len(),
{
    m.len()
}

/// Trusted: `IndexMap::get_index_of` is the position of the entry whose key
/// equals `key`, and `None` when no entry has that key.
#[verifier::external_body]
pub(crate) fn response_context_map_index_of(m: &IndexMap<String, ResponseContext>, key: &str) -> (r: Option<usize>)
    ensures
        r matches Some(i) ==> i < response_context_entries(*m).len() && response_context_entries(*m)[i as int].0 == key@,
        r is None ==> forall|i: int| 0 <= i < response_context_entries(*m).len() ==> response_context_entries(*m)[i].0 != key@,
{
    m.get_index_of(key)
}

/// Trusted: `IndexMap`'s `Index<usize>` answers the value of entry `i`.
#[verifier::external_body]
pub(crate) fn response_context_map_value_at(m: &IndexMap<String, ResponseContext>, i: usize) -> (r: &ResponseContext)
    requires
        i < response_context_entries(*m).len(),
    ensures
        *r == response_context_entries(*m)[i as int].1,
{
    &m[i]
}

/// Trusted: `IndexMap::insert` replaces the value of an existing key in
/// place and answers the old value; a new key is appended at the end.
#[verifier::external_body]
pub(crate) fn response_context_map_insert(m: &mut IndexMap<String, ResponseContext>, key: String, value: ResponseContext) -> (r: Option<ResponseContext>)
    ensures
        distinct_keys(response_context_entries(*final(m))),
        response_context_entries(*final(m)) == seq_insert_entry(response_context_entries(*old(m)), key@, value),
        r == if has_key(response_context_entries(*old(m)), key@) {
            Some(value_of(response_context_entries(*old(m)), key@))
        } else {
            None
        },
{
    m.insert(key, value)
}

/// Trusted: `IndexMap::shift_remove` removes the entry for `key`, keeping
/// the order of the rest, and answers its value.
#[verifier::external_body]
pub(crate) fn response_context_map_shift_remove(m: &mut IndexMap<String, ResponseContext>, key: &str) -> (r: Option<ResponseContext>)
    ensures
        distinct_keys(response_context_entries(*final(m))),
        response_context_entries(*final(m)) == seq_remove_entry(response_context_entries(*old(m)), key@),
        r == if has_key(response_context_entries(*old(m)), key@) {
            Some(value_of(response_context_entries(*old(m)), key@))
        } else {
            None
        },
{
    m.shift_remove(key)
}

/// What an `IndexMap<String, String>` holds, in order: its entries, each key
/// taken as a character sequence.
pub uninterp spec fn work_id_entries(m: IndexMap<String, String>) -> Seq<(Seq<char>, String)>;

/// Trusted: `IndexMap::new` holds no entries.
#[verifier::external_body]
pub(crate) fn work_id_map_new() -> (m: IndexMap<String, String>)
    ensures
        work_id_entries(m) == Seq::<(Seq<char>, String)>::empty(),
{
    IndexMap::new()
}

/// Trusted: `IndexMap::len` is the number of entries.
#[verifier::external_body]
pub(crate) fn work_id_map_len(m: &IndexMap<String, String>) -> (r: usize)
    ensures
        r == work_id_entries(*m).len(),
{
    m.len()
}

/// Trusted: `IndexMap::get_index_of` is the position of the entry whose key
/// equals `key`, and `None` when no entry has that key.
#[verifier::external_body]
pub(crate) fn work_id_map_index_of(m: &IndexMap<String, String>, key: &str) -> (r: Option<usize>)
    ensures
        r matches Some(i) ==> i < work_id_entries(*m).len() && work_id_entries(*m)[i as int].0 == key@,
        r is None ==> forall|i: int| 0 <= i < work_id_entries(*m).len() ==> work_id_entries(*m)[i].0 != key@,
{
    m.get_index_of(key)
}

/// Trusted: `IndexMap`'s `Index<usize>` answers the value of entry `i`.
#[verifier::external_body]
pub(crate) fn work_id_map_value_at(m: &IndexMap<String, String>, i: usize) -> (r: &String)
    requires
        i < work_id_entries(*m).len(),
    ensures
        *r == work_id_entries(*m)[i as int].1,
{
    &m[i]
}

/// Trusted: `IndexMap::insert` replaces the value of an existing key in
/// place and answers the old value; a new key is appended at the end.
#[verifier::external_body]
pub(crate) fn work_id_map_insert(m: &mut IndexMap<String, String>, key: String, value: String) -> (r: Option<String>)
    ensures
        distinct_keys(work_id_entries(*final(m))),
        work_id_entries(*final(m)) == seq_insert_entry(work_id_entries(*old(m)), key@, value),
        r == if has_key(work_id_entries(*old(m)), key@) {
            Some(value_of(work_id_entries(*old(m)), key@))
        } else {
            None
        },
{
    m.insert(key, value)
}

/// Trusted: `IndexMap::shift_remove_index(0)` removes the first entry and
/// answers it; on an empty map it answers `None`.
#[verifier::external_body]
pub(crate) fn work_id_map_shift_remove_first(m: &mut IndexMap<String, String>) -> (r: Option<(String, String)>)
    ensures
        distinct_keys(work_id_entries(*final(m))),
        work_id_entries(*old(m)).len() > 0 ==> work_id_entries(*final(m)) == work_id_entries(*old(m)).remove(0) && (r matches Some(e)
            && (e.0@, e.1) == work_id_entries(*old(m))[0]),
        work_id_entries(*old(m)).len() == 0 ==> work_id_entries(*final(m)) == work_id_entries(*old(m)) && r is None,
{
    m.shift_remove_index(0)
}

/// What an `IndexMap<String, DeferredBatch>` holds, in order: its entries, each key
/// taken as a character sequence.
pub uninterp spec fn deferred_batch_entries(m: IndexMap<String, DeferredBatch>) -> Seq<(Seq<char>, DeferredBatch)>;

/// Trusted: `IndexMap::new` holds no entries.
#[verifier::external_body]
pub(crate) fn deferred_batch_map_new() -> (m: IndexMap<String, DeferredBatch>)
    ensures
        deferred_batch_entries(m) == Seq::<(Seq<char>, DeferredBatch)>::empty(),
{
    IndexMap::new()
}

/// Trusted: `IndexMap::len` is the number of entries.
#[verifier::external_body]
pub(crate) fn deferred_batch_map_len(m: &IndexMap<String, DeferredBatch>) -> (r: usize)
    ensures
        r == deferred_batch_entries(*m).len(),
{
    m.len()
}

/// Trusted: `IndexMap::get_index_of` is the position of the entry whose key
/// equals `key`, and `None` when no entry has that key.
#[verifier::external_body]
pub(crate) fn deferred_batch_map_index_of(m: &IndexMap<String, DeferredBatch>, key: &str) -> (r: Option<usize>)
    ensures
        r matches Some(i) ==> i < deferred_batch_entries(*m).len() && deferred_batch_entries(*m)[i as int].0 == key@,
        r is None ==> forall|i: int| 0 <= i < deferred_batch_entries(*m).len() ==> deferred_batch_entries(*m)[i].0 != key@,
{
    m.get_index_of(key)
}

/// Trusted: `IndexMap`'s `Index<usize>` answers the value of entry `i`.
#[verifier::external_body]
pub(crate) fn deferred_batch_map_value_at(m: &IndexMap<String, DeferredBatch>, i: usize) -> (r: &DeferredBatch)
    requires
        i < deferred_batch_entries(*m).len(),
    ensures
        *r == deferred_batch_entries(*m)[i as int].1,
{
    &m[i]
}

/// Trusted: `IndexMap::insert` replaces the value of an existing key in
/// place and answers the old value; a new key is appended at the end.
#[verifier::external_body]
pub(crate) fn deferred_batch_map_insert(m: &mut IndexMap<String, DeferredBatch>, key: String, value: DeferredBatch) -> (r: Option<DeferredBatch>)
    ensures
        distinct_keys(deferred_batch_entries(*final(m))),
        deferred_batch_entries(*final(m)) == seq_insert_entry(deferred_batch_entries(*old(m)), key@, value),
        r == if has_key(deferred_batch_entries(*old(m)), key@) {
            Some(value_of(deferred_batch_entries(*old(m)), key@))
        } else {
            None
        },
{
    m.insert(key, value)
}

/// Trusted: `IndexMap::shift_remove` removes the entry for `key`, keeping
/// the order of the rest, and answers its value.
#[verifier::external_body]
pub(crate) fn deferred_batch_map_shift_remove(m: &mut IndexMap<String, DeferredBatch>, key: &str) -> (r: Option<DeferredBatch>)
    ensures
        distinct_keys(deferred_batch_entries(*final(m))),
        deferred_batch_entries(*final(m)) == seq_remove_entry(deferred_batch_entries(*old(m)), key@),
        r == if has_key(deferred_batch_entries(*old(m)), key@) {
            Some(value_of(deferred_batch_entries(*old(m)), key@))
        } else {
            None
        },
{
    m.shift_remove(key)
}

/// Trusted: `IndexMap::shift_remove_index(0)` removes the first entry and
/// answers it; on an empty map it answers `None`.
#[verifier::external_body]
pub(crate) fn deferred_batch_map_shift_remove_first(m: &mut IndexMap<String, DeferredBatch>) -> (r: Option<(String, DeferredBatch)>)
    ensures
        distinct_keys(deferred_batch_entries(*final(m))),
        deferred_batch_entries(*old(m)).len() > 0 ==> deferred_batch_entries(*final(m)) == deferred_batch_entries(*old(m)).remove(0) && (r matches Some(e)
            && (e.0@, e.1) == deferred_batch_entries(*old(m))[0]),
        deferred_batch_entries(*old(m)).len() == 0 ==> deferred_batch_entries(*final(m)) == deferred_batch_entries(*old(m)) && r is None,
{
    m.shift_remove_index(0)
}

/// What an `IndexMap<String, Announcement>` holds, in order: its entries, each key
/// taken as a character sequence.
pub uninterp spec fn announcement_entries(m: IndexMap<String, Announcement>) -> Seq<(Seq<char>, Announcement)>;

/// Trusted: `IndexMap::new` holds no entries.
#[verifier::external_body]
pub(crate) fn announcement_map_new() -> (m: IndexMap<String, Announcement>)
    ensures
        announcement_entries(m) == Seq::<(Seq<char>, Announcement)>::empty(),
{
    IndexMap::new()
}

/// Trusted: `IndexMap::len` is the number of entries.
#[verifier::external_body]
pub(crate) fn announcement_map_len(m: &IndexMap<String, Announcement>) -> (r: usize)
    ensures
        r == announcement_entries(*m).len(),
{
    m.len()
}

/// Trusted: `IndexMap::get_index_of` is the position of the entry whose key
/// equals `key`, and `None` when no entry has that key.
#[verifier::external_body]
pub(crate) fn announcement_map_index_of(m: &IndexMap<String, Announcement>, key: &str) -> (r: Option<usize>)
    ensures
        r matches Some(i) ==> i < announcement_entries(*m).len() && announcement_entries(*m)[i as int].0 == key@,
        r is None ==> forall|i: int| 0 <= i < announcement_entries(*m).len() ==> announcement_entries(*m)[i].0 != key@,
{
    m.get_index_of(key)
}

/// Trusted: `IndexMap::get_index` answers the key of entry `i`.
#[verifier::external_body]
pub(crate) fn announcement_map_key_at(m: &IndexMap<String, Announcement>, i: usize) -> (r: &str)
    requires
        i < announcement_entries(*m).len(),
    ensures
        r@ == announcement_entries(*m)[i as int].0,
{
    m.get_index(i).map(|(k, _)| k.as_str()).unwrap_or_default()
}

/// Trusted: `IndexMap`'s `Index<usize>` answers the value of entry `i`.
#[verifier::external_body]
pub(crate) fn announcement_map_value_at(m: &IndexMap<String, Announcement>, i: usize) -> (r: &Announcement)
    requires
        i < announcement_entries(*m).len(),
    ensures
        *r == announcement_entries(*m)[i as int].1,
{
    &m[i]
}

/// Trusted: `IndexMap::insert` replaces the value of an existing key in
/// place and answers the old value; a new key is appended at the end.
#[verifier::external_body]
pub(crate) fn announcement_map_insert(m: &mut IndexMap<String, Announcement>, key: String, value: Announcement) -> (r: Option<Announcement>)
    ensures
        distinct_keys(announcement_entries(*final(m))),
        announcement_entries(*final(m)) == seq_insert_entry(announcement_entries(*old(m)), key@, value),
        r == if has_key(announcement_entries(*old(m)), key@) {
            Some(value_of(announcement_entries(*old(m)), key@))
        } else {
            None
        },
{
    m.insert(key, value)
}

/// Trusted: `IndexMap::shift_remove` removes the entry for `key`, keeping
/// the order of the rest, and answers its value.
#[verifier::external_body]
pub(crate) fn announcement_map_shift_remove(m: &mut IndexMap<String, Announcement>, key: &str) -> (r: Option<Announcement>)
    ensures
        distinct_keys(announcement_entries(*final(m))),
        announcement_entries(*final(m)) == seq_remove_entry(announcement_entries(*old(m)), key@),
        r == if has_key(announcement_entries(*old(m)), key@) {
            Some(value_of(announcement_entries(*old(m)), key@))
        } else {
            None
        },
{
    m.shift_remove(key)
}

/// Trusted: `IndexMap::clear` removes every entry.
#[verifier::external_body]
pub(crate) fn announcement_map_clear(m: &mut IndexMap<String, Announcement>)
    ensures
        announcement_entries(*final(m)) == Seq::<(Seq<char>, Announcement)>::empty(),
{
    m.clear()
}

} // verus!
