//! The per-session backend-permission policy.
//!
//! When the user says "yes, and stop asking", `always` is recorded here and
//! every later permission request in **that session** is auto-approved. The
//! scope is one owner and one session, and the relaxation decays: a session
//! not touched for the TTL is forgotten, and past the session cap the
//! least recently touched sessions are forgotten first.

use vstd::prelude::*;
use crate::chars::{chars_of, push_str, string_from_chars, str_eq};
use crate::clock::{Clock, SystemClock};
use crate::order::{lex_lt, lemma_lex_irreflexive, lemma_lex_total, lemma_lex_transitive, str_lt};
use crate::strmap::{StrMap, entries_map, distinct_keys, lemma_entries_map_index, lemma_entries_map_len, lemma_entries_map_push};

verus! {

/// How many `(owner, session)` pairs are remembered.
pub const DEFAULT_MAX_SESSIONS: usize = 500;

/// How long a recorded mode survives without being touched: six hours.
pub const DEFAULT_TTL_MS: i64 = 21_600_000;

/// The session id used when a client did not name one.
pub const DEFAULT_SESSION_ID: &'static str = "main";

/// What this session does with a backend permission request.
#[derive(Clone, Copy, Debug, Default, PartialEq, Eq, Hash)]
pub enum PermissionMode {
    /// Relay the request to the model, which asks the user.
    #[default]
    Ask,
    /// Approve without asking.
    AutoAllow,
}

impl PermissionMode {
    /// The stored spelling.
    pub fn as_str(self) -> (r: &'static str)
        ensures
            r@ == (match self {
                PermissionMode::Ask => "ask"@,
                PermissionMode::AutoAllow => "auto_allow"@,
            }),
    {
        match self {
            PermissionMode::Ask => "ask",
            PermissionMode::AutoAllow => "auto_allow",
        }
    }

    /// Parse a stored spelling: anything that is not exactly `auto_allow`
    /// is `ask`, so an unknown value never grants an approval.
    pub fn from_wire_or_ask(value: &str) -> (r: Self)
        ensures
            r == (if value@ == "auto_allow"@ {
                PermissionMode::AutoAllow
            } else {
                PermissionMode::Ask
            }),
    {
        if str_eq(value, "auto_allow") {
            PermissionMode::AutoAllow
        } else {
            PermissionMode::Ask
        }
    }
}

/// The decision the model relayed from the user.
#[derive(Clone, Copy, Debug, PartialEq, Eq, Hash)]
pub enum PermissionDecision {
    /// Allow this operation, and auto-allow the rest of this session.
    Always,
    /// Refuse this operation; keep asking.
    Reject,
}

impl PermissionDecision {
    /// The wire spelling.
    pub fn as_str(self) -> (r: &'static str)
        ensures
            r@ == (match self {
                PermissionDecision::Always => "always"@,
                PermissionDecision::Reject => "reject"@,
            }),
    {
        match self {
            PermissionDecision::Always => "always",
            PermissionDecision::Reject => "reject",
        }
    }

    /// Parse a wire spelling. Anything else is not a decision at all.
    pub fn from_wire(value: &str) -> (r: Option<Self>)
        ensures
            r == (if value@ == "always"@ {
                Some(PermissionDecision::Always)
            } else if value@ == "reject"@ {
                Some(PermissionDecision::Reject)
            } else {
                None::<PermissionDecision>
            }),
    {
        if str_eq(value, "always") {
            Some(PermissionDecision::Always)
        } else if str_eq(value, "reject") {
            Some(PermissionDecision::Reject)
        } else {
            None
        }
    }

    /// The mode this decision installs: only `always` relaxes.
    pub open spec fn mode_spec(self) -> PermissionMode {
        match self {
            PermissionDecision::Always => PermissionMode::AutoAllow,
            PermissionDecision::Reject => PermissionMode::Ask,
        }
    }

    /// The mode this decision installs: only `always` relaxes.
    pub fn mode(self) -> (r: PermissionMode)
        ensures
            r == self.mode_spec(),
    {
        match self {
            PermissionDecision::Always => PermissionMode::AutoAllow,
            PermissionDecision::Reject => PermissionMode::Ask,
        }
    }
}

/// One remembered session.
#[derive(Clone, Copy, Debug, PartialEq, Eq)]
pub struct SessionState {
    /// The recorded mode.
    pub mode: PermissionMode,
    /// When it was last recorded, in epoch milliseconds.
    pub updated_at: i64,
}

/// `owner ⧺ NUL ⧺ (session or "main")`.
pub open spec fn key_spec(owner_id: Seq<char>, session_id: Seq<char>) -> Seq<char> {
    owner_id + seq!['\0'] + (if session_id.len() == 0 {
        DEFAULT_SESSION_ID@
    } else {
        session_id
    })
}

/// The table key for `(owner, session)`: the owner, a NUL, and the session id
/// or `main` when it is empty.
pub fn key(owner_id: &str, session_id: &str) -> (r: String)
    ensures
        r@ == key_spec(owner_id@, session_id@),
{
    let mut out: Vec<char> = chars_of(owner_id);
    out.push('\0');
    if session_id.is_empty() {
        push_str(&mut out, DEFAULT_SESSION_ID);
    } else {
        push_str(&mut out, session_id);
    }
    assert(out@ =~= key_spec(owner_id@, session_id@));
    string_from_chars(&out)
}

/// Ids without a NUL never collide: the key determines the owner and the
/// (defaulted) session.
pub proof fn lemma_key_injective(o1: Seq<char>, s1: Seq<char>, o2: Seq<char>, s2: Seq<char>)
    requires
        !o1.contains('\0'),
        !o2.contains('\0'),
        key_spec(o1, s1) == key_spec(o2, s2),
    ensures
        o1 == o2,
        (if s1.len() == 0 { DEFAULT_SESSION_ID@ } else { s1 }) == (if s2.len() == 0 {
            DEFAULT_SESSION_ID@
        } else {
            s2
        }),
{
    let k1 = key_spec(o1, s1);
    let k2 = key_spec(o2, s2);
    if o1.len() < o2.len() {
        assert(k1[o1.len() as int] == '\0');
        assert(k2[o1.len() as int] == o2[o1.len() as int]);
        assert(o2.contains(o2[o1.len() as int]));
    } else if o2.len() < o1.len() {
        assert(k2[o2.len() as int] == '\0');
        assert(k1[o2.len() as int] == o1[o2.len() as int]);
        assert(o1.contains(o1[o2.len() as int]));
    }
    assert(o1.len() == o2.len());
    assert forall|i: int| 0 <= i < o1.len() implies o1[i] == o2[i] by {
        assert(k1[i] == o1[i] && k2[i] == o2[i]);
    }
    assert(o1 =~= o2);
    let n = o1.len() + 1;
    assert(k1.skip(n as int) =~= (if s1.len() == 0 { DEFAULT_SESSION_ID@ } else { s1 }));
    assert(k2.skip(n as int) =~= (if s2.len() == 0 { DEFAULT_SESSION_ID@ } else { s2 }));
}

/// `a - b`, saturating at the `i64` range.
pub open spec fn sat_sub(a: i64, b: i64) -> int {
    if a - b > i64::MAX {
        i64::MAX as int
    } else if a - b < i64::MIN {
        i64::MIN as int
    } else {
        a - b
    }
}

fn saturating_sub(a: i64, b: i64) -> (r: i64)
    ensures
        r == sat_sub(a, b),
{
    if b > 0 && a < i64::MIN + b {
        i64::MIN
    } else if b < 0 && a > i64::MAX + b {
        i64::MAX
    } else {
        a - b
    }
}

/// A session is kept while it is younger than the TTL.
pub open spec fn is_live(state: SessionState, now: i64, ttl_ms: i64) -> bool {
    sat_sub(now, state.updated_at) < ttl_ms
}

/// Eviction order: older first, and among equally old the smaller key.
pub open spec fn entry_lt(k1: Seq<char>, s1: SessionState, k2: Seq<char>, s2: SessionState) -> bool {
    s1.updated_at < s2.updated_at || (s1.updated_at == s2.updated_at && lex_lt(k1, k2))
}

/// The sessions of `before` still live at `now`.
pub open spec fn live_part(before: Map<Seq<char>, SessionState>, now: i64, ttl_ms: i64) -> Map<
    Seq<char>,
    SessionState,
> {
    before.restrict(before.dom().filter(|k: Seq<char>| is_live(before[k], now, ttl_ms)))
}

/// `after` is what pruning `before` at `now` leaves: the live sessions,
/// and of those, when more than `max_sessions` are live, the
/// `max_sessions` that come last in eviction order.
pub open spec fn is_prune_of(
    before: Map<Seq<char>, SessionState>,
    after: Map<Seq<char>, SessionState>,
    now: i64,
    ttl_ms: i64,
    max_sessions: usize,
) -> bool {
    let live = live_part(before, now, ttl_ms);
    &&& after.submap_of(live)
    &&& after.len() == if live.len() < max_sessions {
        live.len()
    } else {
        max_sessions as nat
    }
    &&& forall|r: Seq<char>, k: Seq<char>|
        live.contains_key(r) && !after.contains_key(r) && after.contains_key(k) ==> entry_lt(
            r,
            live[r],
            k,
            after[k],
        )
}

proof fn lemma_entry_order(k1: Seq<char>, s1: SessionState, k2: Seq<char>, s2: SessionState, k3: Seq<char>, s3: SessionState)
    ensures
        k1 != k2 ==> entry_lt(k1, s1, k2, s2) || entry_lt(k2, s2, k1, s1),
        !(entry_lt(k1, s1, k2, s2) && entry_lt(k2, s2, k1, s1)),
        entry_lt(k1, s1, k2, s2) && entry_lt(k2, s2, k3, s3) ==> entry_lt(k1, s1, k3, s3),
        !entry_lt(k1, s1, k1, s1),
{
    lemma_lex_total(k1, k2);
    lemma_lex_irreflexive(k1);
    if lex_lt(k1, k2) && lex_lt(k2, k3) {
        lemma_lex_transitive(k1, k2, k3);
    }
}

/// Per-session auto-allow state.
pub struct SessionPermissionPolicy<C> {
    max_sessions: usize,
    ttl_ms: i64,
    clock: C,
    sessions: StrMap<SessionState>,
}

impl<C: Clock> SessionPermissionPolicy<C> {
    /// The table is well formed.
    pub closed spec fn wf(&self) -> bool {
        self.sessions.wf()
    }

    /// Session key → its remembered state.
    pub closed spec fn view(&self) -> Map<Seq<char>, SessionState> {
        self.sessions@
    }

    /// The table is finite.
    pub proof fn lemma_finite(&self)
        requires
            self.wf(),
        ensures
            self@.dom().finite(),
    {
        lemma_entries_map_len(self.sessions.seq());
    }

    /// The session cap.
    pub closed spec fn max_sessions_spec(&self) -> usize {
        self.max_sessions
    }

    /// The TTL in milliseconds.
    pub closed spec fn ttl_ms_spec(&self) -> i64 {
        self.ttl_ms
    }

    /// A policy driven by `clock`, with the default bounds and nothing
    /// remembered.
    pub fn with_clock(clock: C) -> (r: Self)
        ensures
            r.wf(),
            r@ == Map::<Seq<char>, SessionState>::empty(),
            r.max_sessions_spec() == DEFAULT_MAX_SESSIONS,
            r.ttl_ms_spec() == DEFAULT_TTL_MS,
    {
        SessionPermissionPolicy {
            max_sessions: DEFAULT_MAX_SESSIONS,
            ttl_ms: DEFAULT_TTL_MS,
            clock,
            sessions: StrMap::new(),
        }
    }

    /// Override the session cap.
    pub fn max_sessions(self, max_sessions: usize) -> (r: Self)
        requires
            self.wf(),
        ensures
            r.wf(),
            r@ == self@,
            r.max_sessions_spec() == max_sessions,
            r.ttl_ms_spec() == self.ttl_ms_spec(),
    {
        SessionPermissionPolicy { max_sessions, ..self }
    }

    /// Override the TTL.
    pub fn ttl_ms(self, ttl_ms: i64) -> (r: Self)
        requires
            self.wf(),
        ensures
            r.wf(),
            r@ == self@,
            r.ttl_ms_spec() == ttl_ms,
            r.max_sessions_spec() == self.max_sessions_spec(),
    {
        SessionPermissionPolicy { ttl_ms, ..self }
    }

    /// Drop the sessions expired at `now`, then the oldest until the cap
    /// holds. A session exactly at the TTL is dropped.
    pub fn prune_at(&mut self, now: i64)
        requires
            old(self).wf(),
        ensures
            final(self).wf(),
            is_prune_of(old(self)@, final(self)@, now, old(self).ttl_ms_spec(), old(self).max_sessions_spec()),
            final(self).ttl_ms_spec() == old(self).ttl_ms_spec(),
            final(self).max_sessions_spec() == old(self).max_sessions_spec(),
    {
        let ghost before = self.sessions@;
        let ghost bseq = self.sessions.seq();
        let ttl = self.ttl_ms;
        // Keep the live sessions, in order.
        let mut kept: StrMap<SessionState> = StrMap::new();
        let mut i: usize = 0;
        let n = self.sessions.len();
        while i < n
            invariant
                self.sessions.wf(),
                self.sessions.seq() == bseq,
                self.sessions@ == before,
                n == bseq.len(),
                i <= n,
                kept.wf(),
                kept@ == live_part(entries_map(bseq.take(i as int)), now, ttl),
                distinct_keys(bseq),
            decreases n - i,
        {
            let state = *self.sessions.value_at(i);
            let k = self.sessions.key_at(i);
            let ghost prefix = entries_map(bseq.take(i as int));
            proof {
                assert(bseq.take(i + 1) =~= bseq.take(i as int).push(bseq[i as int]));
                assert(distinct_keys(bseq.take(i as int))) by {
                    assert forall|a: int, b: int| 0 <= a < b < i implies #[trigger] bseq.take(i as int)[a].0 != #[trigger] bseq.take(i as int)[b].0 by {
                        assert(bseq[a].0 != bseq[b].0);
                    }
                }
                assert(!prefix.contains_key(bseq[i as int].0)) by {
                    if prefix.contains_key(bseq[i as int].0) {
                        let j = choose|j: int| 0 <= j < bseq.take(i as int).len() && bseq.take(i as int)[j].0 == bseq[i as int].0;
                        assert(bseq[j].0 != bseq[i as int].0);
                    }
                }
                lemma_entries_map_push(bseq.take(i as int), bseq[i as int].0, bseq[i as int].1);
            }
            if saturating_sub(now, state.updated_at) < ttl {
                proof {
                    assert(!kept@.contains_key(k@));
                }
                let owned = String::from_str(k);
                kept.insert(owned, state);
                proof {
                    let m = entries_map(bseq.take(i + 1));
                    assert(live_part(m, now, ttl) =~= live_part(prefix, now, ttl).insert(k@, state));
                }
            } else {
                proof {
                    let m = entries_map(bseq.take(i + 1));
                    assert(live_part(m, now, ttl) =~= live_part(prefix, now, ttl));
                }
            }
            i = i + 1;
        }
        assert(bseq.take(n as int) =~= bseq);
        let ghost live = live_part(before, now, ttl);
        assert(kept@ == live);
        // Evict in order until the cap holds.
        let max = self.max_sessions;
        proof {
            lemma_entries_map_len(kept.seq());
        }
        while kept.len() > max
            invariant
                kept.wf(),
                kept@.submap_of(live),
                live.dom().finite(),
                kept@.len() == live.len() || kept@.len() >= max,
                forall|r: Seq<char>, k: Seq<char>|
                    live.contains_key(r) && !kept@.contains_key(r) && kept@.contains_key(k)
                        ==> entry_lt(r, live[r], k, kept@[k]),
            decreases kept@.len(),
        {
            let m = min_index(&kept);
            let ghost mk = kept.seq()[m as int].0;
            let ghost ms = kept.seq()[m as int].1;
            proof {
                lemma_entries_map_index(kept.seq(), m as int);
            }
            let ghost old_kept = kept@;
            kept.remove_at(m);
            proof {
                lemma_entries_map_len(kept.seq());
                assert forall|r: Seq<char>, k: Seq<char>|
                    live.contains_key(r) && !kept@.contains_key(r) && kept@.contains_key(k)
                        implies entry_lt(r, live[r], k, kept@[k]) by {
                    if r == mk {
                        assert(old_kept.contains_key(k) && k != mk);
                    }
                }
            }
        }
        proof {
            lemma_entries_map_len(kept.seq());
            assert(kept@.dom().subset_of(live.dom()));
            vstd::set_lib::lemma_len_subset(kept@.dom(), live.dom());
        }
        self.sessions = kept;
    }
}


impl<C: Clock> SessionPermissionPolicy<C> {
    /// Drop expired sessions, then the oldest until the cap holds, at the
    /// clock's current time.
    pub fn prune(&mut self)
        requires
            old(self).wf(),
        ensures
            final(self).wf(),
            exists|now: i64|
                #[trigger] is_prune_of(old(self)@, final(self)@, now, old(self).ttl_ms_spec(), old(self).max_sessions_spec()),
            final(self).ttl_ms_spec() == old(self).ttl_ms_spec(),
            final(self).max_sessions_spec() == old(self).max_sessions_spec(),
    {
        let now = self.clock.now_ms();
        self.prune_at(now);
    }

    /// This session's mode after pruning at `now`, defaulting to `Ask`.
    pub fn mode_at(&mut self, owner_id: &str, session_id: &str, now: i64) -> (r: PermissionMode)
        requires
            old(self).wf(),
        ensures
            final(self).wf(),
            is_prune_of(old(self)@, final(self)@, now, old(self).ttl_ms_spec(), old(self).max_sessions_spec()),
            r == (if final(self)@.contains_key(key_spec(owner_id@, session_id@)) {
                final(self)@[key_spec(owner_id@, session_id@)].mode
            } else {
                PermissionMode::Ask
            }),
            final(self).ttl_ms_spec() == old(self).ttl_ms_spec(),
            final(self).max_sessions_spec() == old(self).max_sessions_spec(),
    {
        self.prune_at(now);
        let k = key(owner_id, session_id);
        match self.sessions.get(k.as_str()) {
            Some(state) => state.mode,
            None => PermissionMode::Ask,
        }
    }

    /// This session's mode, defaulting to `Ask`.
    pub fn mode(&mut self, owner_id: &str, session_id: &str) -> (r: PermissionMode)
        requires
            old(self).wf(),
        ensures
            final(self).wf(),
            exists|now: i64|
                #[trigger] is_prune_of(old(self)@, final(self)@, now, old(self).ttl_ms_spec(), old(self).max_sessions_spec()),
            r == (if final(self)@.contains_key(key_spec(owner_id@, session_id@)) {
                final(self)@[key_spec(owner_id@, session_id@)].mode
            } else {
                PermissionMode::Ask
            }),
            final(self).ttl_ms_spec() == old(self).ttl_ms_spec(),
            final(self).max_sessions_spec() == old(self).max_sessions_spec(),
    {
        let now = self.clock.now_ms();
        self.mode_at(owner_id, session_id, now)
    }

    /// Record a mode for this session at `now`, then prune at `now`.
    pub fn set_mode_at(&mut self, owner_id: &str, session_id: &str, mode: PermissionMode, now: i64) -> (r: PermissionMode)
        requires
            old(self).wf(),
        ensures
            final(self).wf(),
            is_prune_of(
                old(self)@.insert(key_spec(owner_id@, session_id@), SessionState { mode, updated_at: now }),
                final(self)@,
                now,
                old(self).ttl_ms_spec(),
                old(self).max_sessions_spec(),
            ),
            r == mode,
            final(self).ttl_ms_spec() == old(self).ttl_ms_spec(),
            final(self).max_sessions_spec() == old(self).max_sessions_spec(),
    {
        let k = key(owner_id, session_id);
        self.sessions.insert(k, SessionState { mode, updated_at: now });
        self.prune_at(now);
        mode
    }

    /// Record a mode for this session, stamped with the clock's time.
    pub fn set_mode(&mut self, owner_id: &str, session_id: &str, mode: PermissionMode) -> (r: PermissionMode)
        requires
            old(self).wf(),
        ensures
            final(self).wf(),
            exists|now: i64|
                #[trigger] is_prune_of(
                    old(self)@.insert(key_spec(owner_id@, session_id@), SessionState { mode, updated_at: now }),
                    final(self)@,
                    now,
                    old(self).ttl_ms_spec(),
                    old(self).max_sessions_spec(),
                ),
            r == mode,
            final(self).ttl_ms_spec() == old(self).ttl_ms_spec(),
            final(self).max_sessions_spec() == old(self).max_sessions_spec(),
    {
        let now = self.clock.now_ms();
        self.set_mode_at(owner_id, session_id, mode, now)
    }

    /// Apply the user's decision: record the mode it installs.
    pub fn apply_decision(&mut self, owner_id: &str, session_id: &str, decision: PermissionDecision) -> (r: PermissionMode)
        requires
            old(self).wf(),
        ensures
            final(self).wf(),
            exists|now: i64|
                #[trigger] is_prune_of(
                    old(self)@.insert(key_spec(owner_id@, session_id@), SessionState { mode: decision.mode_spec(), updated_at: now }),
                    final(self)@,
                    now,
                    old(self).ttl_ms_spec(),
                    old(self).max_sessions_spec(),
                ),
            r == decision.mode_spec(),
            final(self).ttl_ms_spec() == old(self).ttl_ms_spec(),
            final(self).max_sessions_spec() == old(self).max_sessions_spec(),
    {
        let mode = decision.mode();
        self.set_mode(owner_id, session_id, mode)
    }

    /// Whether this session auto-approves.
    pub fn should_auto_allow(&mut self, owner_id: &str, session_id: &str) -> (r: bool)
        requires
            old(self).wf(),
        ensures
            final(self).wf(),
            exists|now: i64|
                #[trigger] is_prune_of(old(self)@, final(self)@, now, old(self).ttl_ms_spec(), old(self).max_sessions_spec()),
            r == (final(self)@.contains_key(key_spec(owner_id@, session_id@))
                && final(self)@[key_spec(owner_id@, session_id@)].mode == PermissionMode::AutoAllow),
            final(self).ttl_ms_spec() == old(self).ttl_ms_spec(),
            final(self).max_sessions_spec() == old(self).max_sessions_spec(),
    {
        let mode = self.mode(owner_id, session_id);
        match mode {
            PermissionMode::AutoAllow => true,
            PermissionMode::Ask => false,
        }
    }

    /// How many sessions are remembered.
    pub fn len(&self) -> (r: usize)
        requires
            self.wf(),
        ensures
            r == self@.len(),
    {
        self.sessions.len()
    }

    /// Whether nothing is remembered.
    pub fn is_empty(&self) -> (r: bool)
        requires
            self.wf(),
        ensures
            r == (self@.len() == 0),
    {
        self.sessions.len() == 0
    }
}

impl SessionPermissionPolicy<SystemClock> {
    /// A policy with the default bounds and the system clock.
    pub fn new() -> (r: Self)
        ensures
            r.wf(),
            r@ == Map::<Seq<char>, SessionState>::empty(),
            r.max_sessions_spec() == DEFAULT_MAX_SESSIONS,
            r.ttl_ms_spec() == DEFAULT_TTL_MS,
    {
        Self::with_clock(SystemClock)
    }
}

impl Default for SessionPermissionPolicy<SystemClock> {
    fn default() -> (r: Self)
        ensures
            r.wf(),
            r@ == Map::<Seq<char>, SessionState>::empty(),
    {
        Self::new()
    }
}

/// Pruning never keeps a session that has been idle for the TTL or longer.
pub proof fn lemma_expired_sessions_are_forgotten(
    before: Map<Seq<char>, SessionState>,
    after: Map<Seq<char>, SessionState>,
    now: i64,
    ttl_ms: i64,
    max_sessions: usize,
    k: Seq<char>,
)
    requires
        is_prune_of(before, after, now, ttl_ms, max_sessions),
        before.contains_key(k),
        sat_sub(now, before[k].updated_at) >= ttl_ms,
    ensures
        !after.contains_key(k),
{
    let live = live_part(before, now, ttl_ms);
    assert(!live.contains_key(k));
    if after.contains_key(k) {
        assert(live.contains_key(k));
    }
}

/// A mode just recorded at `now` is what the session then answers, when
/// the TTL is positive, the cap admits a session, and every other session
/// was recorded earlier.
pub proof fn lemma_fresh_record_survives(
    before: Map<Seq<char>, SessionState>,
    after: Map<Seq<char>, SessionState>,
    k: Seq<char>,
    state: SessionState,
    now: i64,
    ttl_ms: i64,
    max_sessions: usize,
)
    requires
        before.dom().finite(),
        is_prune_of(before.insert(k, state), after, now, ttl_ms, max_sessions),
        state.updated_at == now,
        ttl_ms > 0,
        max_sessions > 0,
        forall|o: Seq<char>| #[trigger] before.contains_key(o) && o != k ==> before[o].updated_at < now,
    ensures
        after.contains_key(k),
        after[k] == state,
{
    let full = before.insert(k, state);
    let live = live_part(full, now, ttl_ms);
    assert(live.contains_key(k));
    assert(full.dom().finite());
    vstd::set_lib::lemma_len_subset(live.dom(), full.dom());
    if !after.contains_key(k) {
        assert(live.dom().len() >= 1) by {
            vstd::set_lib::lemma_len_subset(set![k], live.dom());
        }
        assert(after.len() >= 1);
        assert(after.dom().finite()) by {
            vstd::set_lib::lemma_len_subset(after.dom(), live.dom());
        }
        let o = after.dom().choose();
        assert(after.dom().contains(o)) by {
            if !after.dom().contains(o) {
                assert(after.dom() =~= Set::<Seq<char>>::empty());
            }
        }
        assert(live.contains_key(o));
        assert(entry_lt(k, live[k], o, after[o]));
        assert(after[o] == full[o]);
        assert(o != k);
    }
    assert(live.contains_key(k));
}

/// When no more sessions are live than the cap admits, pruning keeps every
/// live session as it was.
proof fn lemma_prune_within_cap(
    before: Map<Seq<char>, SessionState>,
    after: Map<Seq<char>, SessionState>,
    now: i64,
    ttl_ms: i64,
    max_sessions: usize,
)
    requires
        before.dom().finite(),
        live_part(before, now, ttl_ms).len() <= max_sessions,
        is_prune_of(before, after, now, ttl_ms, max_sessions),
    ensures
        after == live_part(before, now, ttl_ms),
{
    let live = live_part(before, now, ttl_ms);
    vstd::set_lib::lemma_len_subset(live.dom(), before.dom());
    vstd::set_lib::lemma_len_subset(after.dom(), live.dom());
    assert(after.len() == live.len());
    vstd::set_lib::lemma_subset_equality(after.dom(), live.dom());
    assert(after =~= live);
}

/// A table within its cap loses no live session to pruning: a session
/// still live at `now` is kept, unchanged, and the table stays within the cap.
pub proof fn lemma_live_session_kept(
    before: Map<Seq<char>, SessionState>,
    after: Map<Seq<char>, SessionState>,
    k: Seq<char>,
    now: i64,
    ttl_ms: i64,
    max_sessions: usize,
)
    requires
        before.dom().finite(),
        before.len() <= max_sessions,
        is_prune_of(before, after, now, ttl_ms, max_sessions),
        before.contains_key(k),
        is_live(before[k], now, ttl_ms),
    ensures
        after.contains_key(k),
        after[k] == before[k],
        after.dom().finite(),
        after.len() <= max_sessions,
{
    let live = live_part(before, now, ttl_ms);
    vstd::set_lib::lemma_len_subset(live.dom(), before.dom());
    lemma_prune_within_cap(before, after, now, ttl_ms, max_sessions);
    assert(live.contains_key(k));
}

/// Recording a mode restarts the session's TTL: once a mode is recorded for
/// a session at `t` (with a positive TTL, a cap that admits a session, and
/// every other session recorded before `t`), the next look-up at any `c`
/// before the TTL has passed since `t` finds that mode.
pub proof fn lemma_recorded_mode_holds_within_ttl(
    before: Map<Seq<char>, SessionState>,
    recorded: Map<Seq<char>, SessionState>,
    later: Map<Seq<char>, SessionState>,
    owner_id: Seq<char>,
    session_id: Seq<char>,
    mode: PermissionMode,
    t: i64,
    c: i64,
    ttl_ms: i64,
    max_sessions: usize,
)
    requires
        before.dom().finite(),
        ttl_ms > 0,
        max_sessions > 0,
        forall|o: Seq<char>| #[trigger] before.contains_key(o) && o != key_spec(owner_id, session_id) ==> before[o].updated_at < t,
        is_prune_of(
            before.insert(key_spec(owner_id, session_id), SessionState { mode, updated_at: t }),
            recorded,
            t,
            ttl_ms,
            max_sessions,
        ),
        is_prune_of(recorded, later, c, ttl_ms, max_sessions),
        sat_sub(c, t) < ttl_ms,
    ensures
        later.contains_key(key_spec(owner_id, session_id)),
        later[key_spec(owner_id, session_id)] == (SessionState { mode, updated_at: t }),
{
    let k = key_spec(owner_id, session_id);
    let full = before.insert(k, SessionState { mode, updated_at: t });
    lemma_fresh_record_survives(before, recorded, k, SessionState { mode, updated_at: t }, t, ttl_ms, max_sessions);
    let live = live_part(full, t, ttl_ms);
    vstd::set_lib::lemma_len_subset(live.dom(), full.dom());
    vstd::set_lib::lemma_len_subset(recorded.dom(), live.dom());
    lemma_live_session_kept(recorded, later, k, c, ttl_ms, max_sessions);
}

/// Recording a mode is scoped to one owner and one session: with ids free
/// of NUL and a table under its cap, any other (owner, session) pair — after
/// an empty session id is read as `main` — is kept, unchanged, exactly when
/// it is still live at `now`, as pruning at `now` alone would leave it.
pub proof fn lemma_recording_is_scoped(
    before: Map<Seq<char>, SessionState>,
    after: Map<Seq<char>, SessionState>,
    owner_id: Seq<char>,
    session_id: Seq<char>,
    state: SessionState,
    other_owner: Seq<char>,
    other_session: Seq<char>,
    now: i64,
    ttl_ms: i64,
    max_sessions: usize,
)
    requires
        before.dom().finite(),
        before.len() < max_sessions,
        !owner_id.contains('\0'),
        !other_owner.contains('\0'),
        owner_id != other_owner || (if session_id.len() == 0 { DEFAULT_SESSION_ID@ } else { session_id }) != (
        if other_session.len() == 0 {
            DEFAULT_SESSION_ID@
        } else {
            other_session
        }),
        is_prune_of(before.insert(key_spec(owner_id, session_id), state), after, now, ttl_ms, max_sessions),
    ensures
        after.contains_key(key_spec(other_owner, other_session)) == (before.contains_key(
            key_spec(other_owner, other_session),
        ) && is_live(before[key_spec(other_owner, other_session)], now, ttl_ms)),
        after.contains_key(key_spec(other_owner, other_session)) ==> after[key_spec(other_owner, other_session)]
            == before[key_spec(other_owner, other_session)],
{
    let k = key_spec(owner_id, session_id);
    let k2 = key_spec(other_owner, other_session);
    if k == k2 {
        lemma_key_injective(owner_id, session_id, other_owner, other_session);
    }
    let full = before.insert(k, state);
    let live = live_part(full, now, ttl_ms);
    vstd::set_lib::lemma_len_subset(live.dom(), full.dom());
    lemma_prune_within_cap(full, after, now, ttl_ms, max_sessions);
}

/// The position of the first entry in eviction order.
fn min_index(m: &StrMap<SessionState>) -> (r: usize)
    requires
        m.wf(),
        m.seq().len() > 0,
    ensures
        r < m.seq().len(),
        forall|j: int|
            0 <= j < m.seq().len() && j != r ==> entry_lt(
                m.seq()[r as int].0,
                m.seq()[r as int].1,
                m.seq()[j].0,
                m.seq()[j].1,
            ),
        forall|k: Seq<char>|
            m@.contains_key(k) && k != m.seq()[r as int].0 ==> entry_lt(
                m.seq()[r as int].0,
                m.seq()[r as int].1,
                k,
                m@[k],
            ),
{
    let n = m.len();
    let mut best: usize = 0;
    let mut i: usize = 1;
    while i < n
        invariant
            m.wf(),
            n == m.seq().len(),
            1 <= i <= n,
            best < i,
            forall|j: int|
                0 <= j < i && j != best ==> entry_lt(
                    m.seq()[best as int].0,
                    m.seq()[best as int].1,
                    m.seq()[j].0,
                    m.seq()[j].1,
                ),
        decreases n - i,
    {
        let bs = *m.value_at(best);
        let cs = *m.value_at(i);
        let better = cs.updated_at < bs.updated_at || (cs.updated_at == bs.updated_at && str_lt(
            m.key_at(i),
            m.key_at(best),
        ));
        proof {
            assert(m.seq()[i as int].0 != m.seq()[best as int].0);
        }
        if better {
            proof {
                assert forall|j: int| 0 <= j < i + 1 && j != i implies entry_lt(
                    m.seq()[i as int].0,
                    m.seq()[i as int].1,
                    m.seq()[j].0,
                    m.seq()[j].1,
                ) by {
                    if j != best {
                        lemma_entry_order(m.seq()[i as int].0, m.seq()[i as int].1, m.seq()[best as int].0, m.seq()[best as int].1, m.seq()[j].0, m.seq()[j].1);
                    }
                }
            }
            best = i;
        } else {
            proof {
                lemma_entry_order(m.seq()[i as int].0, m.seq()[i as int].1, m.seq()[best as int].0, m.seq()[best as int].1, m.seq()[i as int].0, m.seq()[i as int].1);
            }
        }
        i = i + 1;
    }
    proof {
        assert forall|k: Seq<char>|
            m@.contains_key(k) && k != m.seq()[best as int].0 implies entry_lt(
                m.seq()[best as int].0,
                m.seq()[best as int].1,
                k,
                m@[k],
            ) by {
            let j = choose|j: int| 0 <= j < m.seq().len() && m.seq()[j].0 == k;
            lemma_entries_map_index(m.seq(), j);
        }
    }
    best
}

} // verus!
