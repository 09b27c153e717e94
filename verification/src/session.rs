//! The voice session's own state: turns, timing constants, and the upgrade
//! decision.
//!
//! Turn identity is two values: the **id** distinguishes two utterances, and
//! the **generation** distinguishes the same utterance before and after a
//! barge-in. [`TurnTracker`] owns both, plus the *committed* pair — the turn
//! the model has actually been told about.

use vstd::prelude::*;
use crate::chars::{decimal_seq, push_decimal, push_signed_decimal, push_str, signed_decimal_seq, str_eq, string_from_chars};
use crate::turn::TurnRef;

verus! {

/// How many audio chunks are buffered while the socket is down.
pub const MAX_PENDING_AUDIO_CHUNKS: usize = 30;

/// How long the gateway waits for a response to start before it reconnects.
pub const RESPONSE_START_WATCHDOG_MS: u64 = 12_000;

/// How long a permission answer waits for the model to act on it.
pub const PERMISSION_RESPONSE_GRACE_MS: u64 = 800;

/// How long a retired response context survives as a tombstone.
pub const RESPONSE_CONTEXT_CLEANUP_MS: u64 = 30_000;

/// How long a connection must hold before the reconnect backoff resets.
pub const REALTIME_STABLE_CONNECTION_MS: u64 = 10_000;

/// How many times a wake re-attempts a connect refused for capacity.
pub const WAKE_CONNECT_MAX_ATTEMPTS: u32 = 3;

/// How long a wake waits between those attempts.
pub const WAKE_CONNECT_RETRY_BACKOFF_MS: u64 = 350;

/// The WebSocket route the realtime gateway accepts.
pub const REALTIME_ROUTE: &'static str = "/api/realtime";

/// The refusal for an upgrade from a disallowed origin: status and body.
pub const UPGRADE_FORBIDDEN: (&'static str, &'static str) = ("403 Forbidden", "origin not allowed");

/// The refusal for an upgrade with no resolvable identity: status and body.
pub const UPGRADE_UNAUTHORIZED: (&'static str, &'static str) = ("401 Unauthorized", "identity required");

/// The `voice-` turn id prefix.
pub const VOICE_TURN_PREFIX: &'static str = "voice-";

/// The `text_` turn id prefix.
pub const TEXT_TURN_PREFIX: &'static str = "text_";

/// The `voice_` notification-claimant prefix.
pub const CLAIMANT_PREFIX: &'static str = "voice_";

/// What an upgrade request may be answered with.
#[derive(Clone, Copy, Debug, PartialEq, Eq)]
pub enum UpgradeDecision {
    /// Accept the upgrade.
    Accept,
    /// Close the socket with no HTTP response at all.
    Destroy,
    /// Refuse with a status line and a plain-text body.
    Reject {
        /// The HTTP status line.
        status: &'static str,
        /// The body.
        message: &'static str,
    },
}

/// Decide what to do with a WebSocket upgrade: the route first, then the
/// origin, then the identity, so an unknown route leaks nothing.
pub fn upgrade_decision(path_matches: bool, origin_allowed: bool, has_identity: bool) -> (r: UpgradeDecision)
    ensures
        !path_matches ==> r == UpgradeDecision::Destroy,
        path_matches && !origin_allowed ==> r == (UpgradeDecision::Reject {
            status: UPGRADE_FORBIDDEN.0,
            message: UPGRADE_FORBIDDEN.1,
        }),
        path_matches && origin_allowed && !has_identity ==> r == (UpgradeDecision::Reject {
            status: UPGRADE_UNAUTHORIZED.0,
            message: UPGRADE_UNAUTHORIZED.1,
        }),
        path_matches && origin_allowed && has_identity ==> r == UpgradeDecision::Accept,
{
    if !path_matches {
        return UpgradeDecision::Destroy;
    }
    if !origin_allowed {
        return UpgradeDecision::Reject { status: UPGRADE_FORBIDDEN.0, message: UPGRADE_FORBIDDEN.1 };
    }
    if !has_identity {
        return UpgradeDecision::Reject {
            status: UPGRADE_UNAUTHORIZED.0,
            message: UPGRADE_UNAUTHORIZED.1,
        };
    }
    UpgradeDecision::Accept
}

/// A lowercase hexadecimal digit.
pub open spec fn is_lower_hex(c: char) -> bool {
    ('0' <= c && c <= '9') || ('a' <= c && c <= 'f')
}

/// The hyphenated text of a version 4 UUID: 36 characters, hyphens at
/// 8, 13, 18 and 23, lowercase hexadecimal digits elsewhere, the version
/// digit `4` at 14 and one of `8 9 a b` (the variant) at 19.
pub open spec fn is_v4_uuid_text(s: Seq<char>) -> bool {
    &&& s.len() == 36
    &&& forall|i: int|
        0 <= i < 36 ==> if i == 8 || i == 13 || i == 18 || i == 23 {
            s[i] == '-'
        } else {
            is_lower_hex(#[trigger] s[i])
        }
    &&& s[14] == '4'
    &&& (s[19] == '8' || s[19] == '9' || s[19] == 'a' || s[19] == 'b')
}

/// A fresh random (version 4) UUID in its hyphenated form.
///
/// Trusted: wraps `uuid::Uuid::new_v4`, which sets the version nibble to 4
/// and the variant bits to `10`, and its `Display`, which writes the
/// lowercase hyphenated form; the remaining digits are random, so nothing
/// else is claimed.
#[verifier::external_body]
fn uuid_v4_hyphenated() -> (r: String)
    ensures
        is_v4_uuid_text(r@),
{
    uuid::Uuid::new_v4().to_string()
}

/// A fresh random (version 4) UUID in its simple form.
///
/// Trusted: wraps `uuid::Uuid::new_v4` and `Uuid::simple`, which renders 32
/// lowercase hexadecimal digits and no hyphen; the value is random.
#[verifier::external_body]
fn uuid_v4_simple() -> (r: String)
    ensures
        r@.len() == 32,
        forall|i: int| 0 <= i < 32 ==> is_lower_hex(#[trigger] r@[i]),
{
    uuid::Uuid::new_v4().simple().to_string()
}

/// A new claimant id for one connection: `voice_` and a random UUID.
pub fn new_claimant_id() -> (r: String)
    ensures
        r@.len() == CLAIMANT_PREFIX@.len() + 36,
        r@.take(CLAIMANT_PREFIX@.len() as int) == CLAIMANT_PREFIX@,
        is_v4_uuid_text(r@.skip(CLAIMANT_PREFIX@.len() as int)),
{
    let mut out: Vec<char> = Vec::new();
    push_str(&mut out, CLAIMANT_PREFIX);
    let id = uuid_v4_hyphenated();
    push_str(&mut out, id.as_str());
    assert(out@.take(CLAIMANT_PREFIX@.len() as int) =~= CLAIMANT_PREFIX@);
    assert(out@.skip(CLAIMANT_PREFIX@.len() as int) =~= id@);
    string_from_chars(&out)
}

/// A new typed-input turn id: `text_` and a random UUID with its dashes
/// stripped.
pub fn new_text_turn_id() -> (r: String)
    ensures
        r@.len() == TEXT_TURN_PREFIX@.len() + 32,
        r@.take(TEXT_TURN_PREFIX@.len() as int) == TEXT_TURN_PREFIX@,
        forall|i: int| TEXT_TURN_PREFIX@.len() <= i < r@.len() ==> is_lower_hex(#[trigger] r@[i]),
{
    let mut out: Vec<char> = Vec::new();
    push_str(&mut out, TEXT_TURN_PREFIX);
    let id = uuid_v4_simple();
    push_str(&mut out, id.as_str());
    assert(out@.take(TEXT_TURN_PREFIX@.len() as int) =~= TEXT_TURN_PREFIX@);
    assert forall|i: int| TEXT_TURN_PREFIX@.len() <= i < out@.len() implies is_lower_hex(#[trigger] out@[i]) by {
        assert(out@[i] == id@[i - TEXT_TURN_PREFIX@.len()]);
    }
    string_from_chars(&out)
}

/// `voice-<epoch_ms>-<generation>`.
pub open spec fn voice_turn_id(now_ms: i64, generation: i64) -> Seq<char> {
    VOICE_TURN_PREFIX@ + signed_decimal_seq(now_ms as int) + seq!['-'] + signed_decimal_seq(generation as int)
}

/// The current and committed turns of one connection.
#[derive(Clone, Debug, Default, PartialEq, Eq)]
pub struct TurnTracker {
    current: TurnRef,
    committed: TurnRef,
    sequence: i64,
}

impl TurnTracker {
    /// The turn currently being captured.
    pub closed spec fn current_spec(&self) -> TurnRef {
        self.current
    }

    /// The turn the model has been told about.
    pub closed spec fn committed_spec(&self) -> TurnRef {
        self.committed
    }

    /// The per-connection sequence every new turn and barge-in bumps.
    pub closed spec fn sequence_spec(&self) -> i64 {
        self.sequence
    }

    /// The sequence only ever counts up from zero.
    pub closed spec fn wf(&self) -> bool {
        self.sequence >= 0
    }

    /// A tracker with no turn.
    pub fn new() -> (r: Self)
        ensures
            r.wf(),
            r.current_spec().turn_id@ == Seq::<char>::empty(),
            r.current_spec().turn_generation == 0,
            r.committed_spec().turn_id@ == Seq::<char>::empty(),
            r.committed_spec().turn_generation == 0,
            r.sequence_spec() == 0,
    {
        TurnTracker {
            current: TurnRef { turn_id: String::new(), turn_generation: 0 },
            committed: TurnRef { turn_id: String::new(), turn_generation: 0 },
            sequence: 0,
        }
    }

    /// The turn currently being captured.
    pub fn current(&self) -> (r: &TurnRef)
        ensures
            *r == self.current_spec(),
    {
        &self.current
    }

    /// The turn the model has been told about.
    pub fn committed(&self) -> (r: &TurnRef)
        ensures
            *r == self.committed_spec(),
    {
        &self.committed
    }

    /// The current generation.
    pub fn generation(&self) -> (r: i64)
        ensures
            r == self.current_spec().turn_generation,
    {
        self.current.turn_generation
    }

    /// Begin a voice turn at `now_ms`, minting `voice-<now_ms>-<generation>`
    /// with the next generation.
    pub fn begin_voice_turn(&mut self, now_ms: i64) -> (r: TurnRef)
        requires
            old(self).wf(),
            old(self).sequence_spec() < i64::MAX,
        ensures
            final(self).wf(),
            final(self).sequence_spec() == old(self).sequence_spec() + 1,
            r.turn_id@ == voice_turn_id(now_ms, final(self).sequence_spec()),
            r.turn_generation == final(self).sequence_spec(),
            final(self).current_spec() == r,
            final(self).committed_spec() == old(self).committed_spec(),
    {
        self.sequence = self.sequence + 1;
        let mut id: Vec<char> = Vec::new();
        push_str(&mut id, VOICE_TURN_PREFIX);
        push_signed_decimal(&mut id, now_ms);
        id.push('-');
        push_signed_decimal(&mut id, self.sequence);
        assert(id@ =~= voice_turn_id(now_ms, self.sequence));
        let turn_id = string_from_chars(&id);
        self.current = TurnRef { turn_id, turn_generation: self.sequence };
        self.current.duplicate()
    }

    /// Begin a typed turn with an already-minted id.
    pub fn begin_typed_turn(&mut self, turn_id: &str) -> (r: TurnRef)
        requires
            old(self).wf(),
            old(self).sequence_spec() < i64::MAX,
        ensures
            final(self).wf(),
            final(self).sequence_spec() == old(self).sequence_spec() + 1,
            r.turn_id@ == turn_id@,
            r.turn_generation == final(self).sequence_spec(),
            final(self).current_spec() == r,
            final(self).committed_spec() == old(self).committed_spec(),
    {
        self.sequence = self.sequence + 1;
        self.current = TurnRef::new(turn_id, self.sequence);
        self.current.duplicate()
    }

    /// Adopt a turn the correlation already knew about; the sequence does
    /// not advance.
    pub fn adopt(&mut self, turn: TurnRef)
        requires
            old(self).wf(),
        ensures
            final(self).wf(),
            final(self).current_spec() == turn,
            final(self).committed_spec() == old(self).committed_spec(),
            final(self).sequence_spec() == old(self).sequence_spec(),
    {
        self.current = turn;
    }

    /// Bump the generation without minting a turn: the current and the
    /// committed turn both take the new generation, which makes every
    /// in-flight tool call stale at once.
    pub fn interrupt(&mut self) -> (r: i64)
        requires
            old(self).wf(),
            old(self).sequence_spec() < i64::MAX,
        ensures
            final(self).wf(),
            r == old(self).sequence_spec() + 1,
            final(self).sequence_spec() == r,
            final(self).current_spec() == (TurnRef { turn_generation: r, ..old(self).current_spec() }),
            final(self).committed_spec() == (TurnRef { turn_generation: r, ..old(self).committed_spec() }),
    {
        self.sequence = self.sequence + 1;
        self.current.turn_generation = self.sequence;
        self.committed.turn_generation = self.sequence;
        self.sequence
    }

    /// Commit `turn` as the one the model has been told about: an empty id
    /// commits nothing, the same turn again changes nothing, and an older
    /// generation never overwrites a newer one.
    pub fn commit(&mut self, turn: &TurnRef) -> (r: bool)
        requires
            old(self).wf(),
        ensures
            final(self).wf(),
            r == (turn.turn_id@.len() > 0 && !(old(self).committed_spec().turn_id@ == turn.turn_id@
                && old(self).committed_spec().turn_generation == turn.turn_generation)
                && turn.turn_generation >= old(self).committed_spec().turn_generation),
            r ==> final(self).committed_spec() == *turn,
            !r ==> final(self).committed_spec() == old(self).committed_spec(),
            final(self).current_spec() == old(self).current_spec(),
            final(self).sequence_spec() == old(self).sequence_spec(),
            final(self).committed_spec().turn_generation >= old(self).committed_spec().turn_generation,
    {
        if turn.turn_id.as_str().is_empty() {
            return false;
        }
        if str_eq(self.committed.turn_id.as_str(), turn.turn_id.as_str())
            && self.committed.turn_generation == turn.turn_generation {
            return false;
        }
        if turn.turn_generation < self.committed.turn_generation {
            return false;
        }
        self.committed = turn.duplicate();
        true
    }

    /// The fallback correlation for a response that carried none: the
    /// committed turn when there is one, otherwise the current one.
    pub fn fallback_turn(&self) -> (r: TurnRef)
        ensures
            r == if self.committed_spec().turn_id@.len() == 0 {
                self.current_spec()
            } else {
                self.committed_spec()
            },
    {
        if self.committed.turn_id.as_str().is_empty() {
            self.current.duplicate()
        } else {
            self.committed.duplicate()
        }
    }
}

/// Two voice turns minted in the same millisecond still differ: their
/// generations differ, and so do their ids.
pub proof fn lemma_voice_turn_ids_differ(now_ms: i64, g1: i64, g2: i64)
    requires
        0 <= g1 < g2,
    ensures
        voice_turn_id(now_ms, g1) != voice_turn_id(now_ms, g2),
{
    let p = VOICE_TURN_PREFIX@ + signed_decimal_seq(now_ms as int) + seq!['-'];
    assert(voice_turn_id(now_ms, g1) =~= p + decimal_seq(g1 as nat));
    assert(voice_turn_id(now_ms, g2) =~= p + decimal_seq(g2 as nat));
    crate::chars::lemma_decimal_injective(g1 as nat, g2 as nat);
    if p + decimal_seq(g1 as nat) == p + decimal_seq(g2 as nat) {
        assert((p + decimal_seq(g1 as nat)).skip(p.len() as int) =~= decimal_seq(g1 as nat));
        assert((p + decimal_seq(g2 as nat)).skip(p.len() as int) =~= decimal_seq(g2 as nat));
    }
}

} // verus!
