//! Per-turn transcripts and the attachments that travelled with them.
//!
//! A realtime model authors `spawn_thinking` from what it heard; the ASR's
//! settled transcript for the same turn arrives independently and often a
//! beat later. The store keeps the last few turns' transcripts and
//! attachments; the host runs the bounded wait on top of it, and a wait that
//! times out answers the empty transcript, never an error.

use vstd::prelude::*;
use crate::input::parts::{part_views, InputPart};
use crate::input::turn::clone_part;
use crate::tables::{TurnPartsTable, TurnTextTable};
use crate::text::{clean, clean_seq, trim, trim_seq};

verus! {

/// How long a transcript lookup waits, in milliseconds.
pub const DEFAULT_WAIT_MS: u64 = 800;

/// How many turns are remembered.
pub const DEFAULT_MAX_TURNS: usize = 20;

/// What a delegation was pinned with.
#[derive(Clone, Debug, Default)]
pub struct ResolvedDelegation {
    /// What the user actually said, or the model's objective when the ASR
    /// had nothing.
    pub original_request: String,
    /// The objective, or the transcript when the model supplied none.
    pub objective: String,
    /// The attachments that travelled with the turn.
    pub input_parts: Vec<InputPart>,
}

/// Pin what a delegation carries, from the model's `supplied_objective`,
/// the turn's settled `transcript` (empty when the wait timed out) and the
/// turn's attachments. The transcript wins for the original request, since
/// that is what the user asked; the objective wins for the objective, since
/// that is what the model decided to do. Each falls back to the other.
pub fn resolve_delegation(supplied_objective: &str, transcript: &str, parts: Vec<InputPart>) -> (r: ResolvedDelegation)
    ensures
        ({
            let objective = clean_seq(supplied_objective@);
            let original = clean_seq(if transcript@.len() == 0 {
                objective
            } else {
                transcript@
            });
            &&& r.original_request@ == original
            &&& r.objective@ == (if objective.len() == 0 {
                original
            } else {
                objective
            })
            &&& r.input_parts@ == parts@
        }),
{
    let objective = clean(supplied_objective);
    let original_request = if transcript.unicode_len() == 0 {
        clean(objective.as_str())
    } else {
        clean(transcript)
    };
    let objective = if objective.as_str().unicode_len() == 0 {
        original_request.clone()
    } else {
        objective
    };
    ResolvedDelegation { original_request, objective, input_parts: parts }
}

/// Drop the oldest entries of `m` until at most `max` remain.
fn keep_newest_texts(m: &mut TurnTextTable, max: usize)
    requires
        old(m).wf(),
    ensures
        final(m).wf(),
        final(m).seq().len() <= max || final(m).seq().len() == 0,
        exists|k: int| 0 <= k <= old(m).seq().len() && final(m).seq() == old(m).seq().skip(k),
        old(m).seq().len() <= max ==> final(m).seq() == old(m).seq(),
        old(m).seq().len() > max ==> final(m).seq().len() == max,
{
    let ghost pre = m.seq();
    let ghost mut k: int = 0;
    proof {
        assert(pre.skip(0) =~= pre);
    }
    while m.len() > max
        invariant
            m.wf(),
            0 <= k <= pre.len(),
            m.seq() == pre.skip(k),
            pre.len() <= max ==> k == 0,
            pre.len() > max ==> m.seq().len() >= max,
        decreases m.seq().len(),
    {
        m.remove_at(0);
        proof {
            assert(pre.skip(k).remove(0) =~= pre.skip(k + 1));
            k = k + 1;
        }
    }
}

/// Drop the oldest entries of `m` until at most `max` remain.
fn keep_newest_parts(m: &mut TurnPartsTable, max: usize)
    requires
        old(m).wf(),
    ensures
        final(m).wf(),
        final(m).seq().len() <= max || final(m).seq().len() == 0,
        exists|k: int| 0 <= k <= old(m).seq().len() && final(m).seq() == old(m).seq().skip(k),
        old(m).seq().len() <= max ==> final(m).seq() == old(m).seq(),
        old(m).seq().len() > max ==> final(m).seq().len() == max,
{
    let ghost pre = m.seq();
    let ghost mut k: int = 0;
    proof {
        assert(pre.skip(0) =~= pre);
    }
    while m.len() > max
        invariant
            m.wf(),
            0 <= k <= pre.len(),
            m.seq() == pre.skip(k),
            pre.len() <= max ==> k == 0,
            pre.len() > max ==> m.seq().len() >= max,
        decreases m.seq().len(),
    {
        m.remove_at(0);
        proof {
            assert(pre.skip(k).remove(0) =~= pre.skip(k + 1));
            k = k + 1;
        }
    }
}

fn clone_parts(v: &Vec<InputPart>) -> (r: Vec<InputPart>)
    ensures
        part_views(r@) == part_views(v@),
{
    let mut r: Vec<InputPart> = Vec::new();
    let mut i: usize = 0;
    while i < v.len()
        invariant
            i <= v@.len(),
            r@.len() == i,
            forall|j: int| 0 <= j < i ==> (#[trigger] r@[j]).view() == v@[j].view(),
        decreases v.len() - i,
    {
        r.push(clone_part(&v[i]));
        i = i + 1;
    }
    assert(part_views(r@) =~= part_views(v@));
    r
}

/// The transcripts and attachments of the last few turns of one session.
pub struct TranscriptStore {
    max_turns: usize,
    values: TurnTextTable,
    input_parts: TurnPartsTable,
}

impl TranscriptStore {
    /// The transcripts, by turn, oldest first.
    pub closed spec fn transcripts_spec(&self) -> Seq<(Seq<char>, String)> {
        self.values.seq()
    }

    /// The attachments, by turn, oldest first.
    pub closed spec fn parts_spec(&self) -> Seq<(Seq<char>, Vec<InputPart>)> {
        self.input_parts.seq()
    }

    /// How many turns are remembered.
    pub closed spec fn max_turns_spec(&self) -> usize {
        self.max_turns
    }

    /// The transcripts, by turn.
    pub closed spec fn transcripts_map(&self) -> Map<Seq<char>, String> {
        self.values@
    }

    /// The attachments, by turn.
    pub closed spec fn parts_map(&self) -> Map<Seq<char>, Vec<InputPart>> {
        self.input_parts@
    }

    /// Both tables are well formed and within the bound.
    pub closed spec fn wf(&self) -> bool {
        &&& self.values.wf()
        &&& self.input_parts.wf()
        &&& self.values.seq().len() <= self.max_turns
        &&& self.input_parts.seq().len() <= self.max_turns
    }

    /// The transcript held for `turn`.
    pub closed spec fn transcript_of(&self, turn: Seq<char>) -> Option<Seq<char>> {
        if self.values@.contains_key(turn) {
            Some(self.values@[turn]@)
        } else {
            None
        }
    }

    /// An empty store remembering `max_turns` turns.
    pub fn new(max_turns: usize) -> (r: Self)
        ensures
            r.wf(),
            r.transcripts_spec().len() == 0,
            r.parts_spec().len() == 0,
            r.max_turns_spec() == max_turns,
    {
        TranscriptStore { max_turns, values: TurnTextTable::new(), input_parts: TurnPartsTable::new() }
    }

    /// Record a turn's settled transcript, trimmed, forgetting the oldest
    /// turns beyond the bound. Answers what every waiter on the turn is
    /// released with; an empty turn id records nothing.
    pub fn record(&mut self, turn_id: &str, transcript: &str) -> (r: Option<String>)
        requires
            old(self).wf(),
        ensures
            final(self).wf(),
            final(self).max_turns_spec() == old(self).max_turns_spec(),
            final(self).parts_spec() == old(self).parts_spec(),
            turn_id@.len() == 0 ==> r is None && final(self).transcripts_spec() == old(self).transcripts_spec(),
            turn_id@.len() > 0 ==> ({
                &&& r matches Some(t) && t@ == trim_seq(transcript@)
                &&& forall|k: Seq<char>| #[trigger] final(self).transcripts_map().contains_key(k) ==> (k == turn_id@
                    && final(self).transcripts_map()[k]@ == trim_seq(transcript@)) || (k != turn_id@
                    && old(self).transcripts_map().contains_key(k) && final(self).transcripts_map()[k] == old(self).transcripts_map()[k])
                &&& old(self).max_turns_spec() > 0 ==> final(self).transcript_of(turn_id@) == Some(trim_seq(transcript@))
            }),
    {
        if turn_id.unicode_len() == 0 {
            return None;
        }
        let value = trim(transcript).to_owned();
        let ghost before = self.values@;
        let ghost had = self.values@.contains_key(turn_id@);
        let ghost old_len = self.values.seq().len();
        proof {
            crate::strmap::lemma_entries_map_len(self.values.seq());
        }
        self.values.insert(turn_id.to_owned(), value.clone());
        let ghost mid = self.values.seq();
        let ghost mid_map = self.values@;
        self.keep_newest_values();
        proof {
            let post = self.values.seq();
            let kk = choose|kk: int| 0 <= kk <= mid.len() && post == mid.skip(kk);
            assert forall|k: Seq<char>| #[trigger] self.values@.contains_key(k) implies (k == turn_id@ && self.values@[k]@
                == trim_seq(transcript@)) || (k != turn_id@ && before.contains_key(k) && self.values@[k] == before[k]) by {
                let j = choose|j: int| 0 <= j < post.len() && post[j].0 == k;
                crate::strmap::lemma_entries_map_index(post, j);
                assert(post[j] == mid[j + kk]);
                crate::strmap::lemma_entries_map_index(mid, j + kk);
            }
            if self.max_turns > 0 {
                if had {
                    assert(self.values.seq() == mid);
                } else {
                    assert(mid.last().0 == turn_id@);
                    assert(mid.len() == old_len + 1);
                    if kk > 0 {
                        assert(post.len() <= self.max_turns);
                        assert(kk <= 1);
                    }
                    assert(post[mid.len() - 1 - kk] == mid[mid.len() - 1]);
                    crate::strmap::lemma_entries_map_index(post, mid.len() - 1 - kk);
                }
            }
        }
        Some(value)
    }

    fn keep_newest_values(&mut self)
        requires
            old(self).values.wf(),
        ensures
            final(self).values.wf(),
            final(self).input_parts == old(self).input_parts,
            final(self).max_turns == old(self).max_turns,
            final(self).values.seq().len() <= old(self).max_turns || final(self).values.seq().len() == 0,
            exists|k: int| 0 <= k <= old(self).values.seq().len() && final(self).values.seq() == old(self).values.seq().skip(k),
            old(self).values.seq().len() <= old(self).max_turns ==> final(self).values.seq() == old(self).values.seq(),
            old(self).values.seq().len() > old(self).max_turns ==> final(self).values.seq().len() == old(self).max_turns,
    {
        let max = self.max_turns;
        keep_newest_texts(&mut self.values, max);
    }

    /// Record the attachments a turn carried, forgetting the oldest turns
    /// beyond the bound. An empty list removes the turn's entry rather than
    /// storing an empty one; an empty turn id records nothing.
    pub fn record_parts(&mut self, turn_id: &str, parts: Vec<InputPart>)
        requires
            old(self).wf(),
        ensures
            final(self).wf(),
            final(self).max_turns_spec() == old(self).max_turns_spec(),
            final(self).transcripts_spec() == old(self).transcripts_spec(),
            turn_id@.len() == 0 ==> final(self).parts_spec() == old(self).parts_spec(),
            turn_id@.len() > 0 && parts@.len() == 0 ==> final(self).parts_map() == old(self).parts_map().remove(turn_id@),
            turn_id@.len() > 0 ==> forall|k: Seq<char>| #[trigger] final(self).parts_map().contains_key(k) ==> (k == turn_id@
                && parts@.len() > 0 && final(self).parts_map()[k]@ == parts@) || (k != turn_id@ && old(self).parts_map().contains_key(k)
                && final(self).parts_map()[k] == old(self).parts_map()[k]),
            turn_id@.len() > 0 && parts@.len() > 0 && old(self).max_turns_spec() > 0 ==> final(self).parts_map().contains_key(turn_id@),
    {
        if turn_id.unicode_len() == 0 {
            return;
        }
        let ghost before = self.input_parts@;
        proof {
            crate::strmap::lemma_entries_map_len(self.input_parts.seq());
        }
        let ghost count = parts@.len();
        let ghost pv = parts@;
        if parts.len() == 0 {
            self.input_parts.remove(turn_id);
        } else {
            self.input_parts.insert(turn_id.to_owned(), parts);
        }
        let ghost mid = self.input_parts.seq();
        let ghost mid_map = self.input_parts@;
        let max = self.max_turns;
        keep_newest_parts(&mut self.input_parts, max);
        proof {
            let post = self.input_parts.seq();
            assert forall|k: Seq<char>| #[trigger] self.input_parts@.contains_key(k) implies (k == turn_id@ && count > 0
                && self.input_parts@[k]@ == pv) || (k != turn_id@ && before.contains_key(k) && self.input_parts@[k]
                == before[k]) by {
                let j = choose|j: int| 0 <= j < post.len() && post[j].0 == k;
                crate::strmap::lemma_entries_map_index(post, j);
                let kk = choose|kk: int| 0 <= kk <= mid.len() && post == mid.skip(kk);
                assert(post[j] == mid[j + kk]);
                crate::strmap::lemma_entries_map_index(mid, j + kk);
            }
            let kk = choose|kk: int| 0 <= kk <= mid.len() && post == mid.skip(kk);
            if count == 0 {
                assert(mid.len() <= max);
                assert(self.input_parts@ == mid_map);
            } else if max > 0 {
                if before.contains_key(turn_id@) {
                    assert(self.input_parts.seq() == mid);
                } else {
                    assert(mid.last().0 == turn_id@);
                    if kk > 0 {
                        assert(kk <= 1);
                    }
                    assert(post[mid.len() - 1 - kk] == mid[mid.len() - 1]);
                    crate::strmap::lemma_entries_map_index(post, mid.len() - 1 - kk);
                }
            }
        }
    }

    /// The turn's settled transcript, if it was recorded.
    pub fn transcript(&self, turn_id: &str) -> (r: Option<String>)
        requires
            self.wf(),
        ensures
            match r {
                Some(t) => self.transcript_of(turn_id@) == Some(t@),
                None => self.transcript_of(turn_id@) is None,
            },
    {
        match self.values.get(turn_id) {
            Some(t) => Some(t.clone()),
            None => None,
        }
    }

    /// The attachments a turn carried; none for an unknown turn.
    pub fn parts(&self, turn_id: &str) -> (r: Vec<InputPart>)
        requires
            self.wf(),
        ensures
            self.parts_map().contains_key(turn_id@) ==> part_views(r@) == part_views(self.parts_map()[turn_id@]@),
            !self.parts_map().contains_key(turn_id@) ==> r@.len() == 0,
    {
        match self.input_parts.get(turn_id) {
            Some(parts) => clone_parts(parts),
            None => Vec::new(),
        }
    }

    /// Drop the attachments: the socket closed. The host releases every
    /// waiter with the empty transcript.
    pub fn close(&mut self)
        requires
            old(self).wf(),
        ensures
            final(self).wf(),
            final(self).parts_spec().len() == 0,
            final(self).transcripts_spec() == old(self).transcripts_spec(),
            final(self).max_turns_spec() == old(self).max_turns_spec(),
    {
        self.input_parts.clear();
    }
}

} // verus!
