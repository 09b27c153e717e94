//! Input arbitration between an external host and this gateway.
//!
//! A host (a system input method, a platform app) owns the microphone
//! whenever the user dictates into it. It announces that through the control
//! plane and the gateway commands its clients to stop capturing. Three
//! properties make the mechanism safe:
//!
//! - holds are counted per holder, so overlapping suspensions from several
//!   host subsystems compose instead of racing;
//! - a repeated suspend by the same holder refreshes its deadline rather than
//!   stacking, so a host that re-announces on every keypress cannot leak a
//!   holder;
//! - every hold expires: each suspend hands out an expiry timer, and a fired
//!   timer that still carries its holder's generation releases it.
//!
//! The holder table is a state machine here; the host runs the clock and the
//! timers, and broadcasts the edges each step reports.

use vstd::prelude::*;
use crate::order::{lemma_lex_irreflexive, lemma_lex_total, lemma_lex_transitive, lex_lt, str_lt};
use crate::sleep::{bump, next_generation};
use crate::strmap::{lemma_entries_map_index, lemma_key_index, StrMap};
use crate::text::{bounded_utf16, take_utf16, trim, trim_seq};

pub use crate::clock::system_clock;
verus! {

/// How long a suspension lasts when the host does not say.
pub const DEFAULT_INPUT_SUSPEND_TTL_MS: u64 = 15000;

/// The longest suspension a host may ask for. The cap turns a hostile or
/// buggy TTL into a bounded outage.
pub const MAX_INPUT_SUSPEND_TTL_MS: u64 = 300000;

/// The bound on a holder name, in UTF-16 units.
pub const MAX_OWNER_CHARS: usize = 80;

/// The bound on a suspension reason, in UTF-16 units.
pub const MAX_REASON_CHARS: usize = 200;

/// The error code a suspension with no owner is refused with.
pub const CODE_INPUT_OWNER_REQUIRED: &'static str = "VIA_INPUT_OWNER_REQUIRED";

/// A suspension refused for want of an owner. Anonymous suspensions cannot
/// be released or attributed, so they are refused at the door.
#[derive(Clone, Debug, PartialEq, Eq)]
pub struct OwnerRequired {
    /// The message.
    pub message: String,
}

impl OwnerRequired {
    /// The stable error code, `VIA_INPUT_OWNER_REQUIRED`.
    pub fn code(&self) -> (r: &'static str)
        ensures
            r@ == CODE_INPUT_OWNER_REQUIRED@,
    {
        CODE_INPUT_OWNER_REQUIRED
    }
}

/// One live suspension, as reported.
#[derive(Clone, Debug, PartialEq, Eq)]
pub struct Holder {
    /// Who is holding.
    pub owner: String,
    /// Why, bounded to [`MAX_REASON_CHARS`].
    pub reason: String,
    /// The TTL actually granted, after the cap.
    pub ttl_ms: u64,
    /// When this holder first suspended. A renewal does not move it.
    pub since: i64,
    /// When the current hold expires.
    pub expires_at: i64,
}

/// The arbitration's public state.
#[derive(Clone, Debug, Default, PartialEq, Eq)]
pub struct SuspensionStatus {
    /// Whether anything is holding.
    pub suspended: bool,
    /// Every holder, ordered by `since`, then by name.
    pub holders: Vec<Holder>,
    /// The first holder's name.
    pub owner: Option<String>,
    /// The first holder's reason.
    pub reason: String,
    /// The latest expiry across every holder, which is when capture may
    /// actually resume.
    pub expires_at: Option<i64>,
}

/// The two edges subscribers are told about.
#[derive(Clone, Copy, Debug, PartialEq, Eq)]
pub enum SuspensionState {
    /// Capture must stop.
    Suspended,
    /// Capture may resume.
    Resumed,
}

/// What changed.
#[derive(Clone, Debug, PartialEq, Eq)]
pub struct SuspensionChange {
    /// The state after the change.
    pub status: SuspensionStatus,
    /// Suspended or resumed.
    pub state: SuspensionState,
    /// Which holder caused it, when there is one.
    pub owner: Option<String>,
    /// The reason, for a suspension.
    pub reason: String,
    /// Whether a TTL expiry caused the resume rather than the host.
    pub expired: bool,
}

/// One held suspension, keyed by its holder's name.
#[derive(Clone, Debug, PartialEq, Eq)]
pub struct HeldSuspension {
    /// Why, bounded.
    pub reason: String,
    /// The TTL granted.
    pub ttl_ms: u64,
    /// When the holder first suspended.
    pub since: i64,
    /// When the current hold expires.
    pub expires_at: i64,
    /// Bumped on every renewal, so a timer armed for a superseded hold is
    /// ignored when it fires.
    pub generation: u64,
}

/// The timer the host arms for a hold: after `ttl_ms`, hand `owner` and
/// `generation` back to [`InputArbiter::expire`].
#[derive(Clone, Debug, PartialEq, Eq)]
pub struct ExpiryTimer {
    /// The holder.
    pub owner: String,
    /// The hold's generation.
    pub generation: u64,
    /// How long to wait, in milliseconds.
    pub ttl_ms: u64,
}

/// What a successful suspend answers.
#[derive(Clone, Debug, PartialEq, Eq)]
pub struct SuspendOutcome {
    /// The status after the suspend.
    pub status: SuspensionStatus,
    /// The expiry timer to arm.
    pub expiry: ExpiryTimer,
    /// The edge to broadcast, when capture just became suspended.
    pub change: Option<SuspensionChange>,
}

/// `a` is reported before `b`: earlier `since`, then the smaller name.
pub open spec fn holder_lt(a: Holder, b: Holder) -> bool {
    a.since < b.since || (a.since == b.since && lex_lt(a.owner@, b.owner@))
}

/// `h` reports the hold `held` of holder `k`.
pub open spec fn reports(k: Seq<char>, held: HeldSuspension, h: Holder) -> bool {
    &&& h.owner@ == k
    &&& h.reason@ == held.reason@
    &&& h.ttl_ms == held.ttl_ms
    &&& h.since == held.since
    &&& h.expires_at == held.expires_at
}

/// The holders are strictly ordered.
pub open spec fn sorted_holders(hs: Seq<Holder>) -> bool {
    forall|p: int, q: int| 0 <= p < q < hs.len() ==> holder_lt(#[trigger] hs[p], #[trigger] hs[q])
}

/// `s` reports the holder table `m` exactly: one holder per hold, in order,
/// with the first holder's name and reason and the latest expiry.
pub open spec fn status_of(m: Map<Seq<char>, HeldSuspension>, s: SuspensionStatus) -> bool {
    let hs = s.holders@;
    &&& hs.len() == m.len()
    &&& sorted_holders(hs)
    &&& forall|p: int| 0 <= p < hs.len() ==> m.contains_key((#[trigger] hs[p]).owner@)
        && reports(hs[p].owner@, m[hs[p].owner@], hs[p])
    &&& forall|k: Seq<char>| #[trigger] m.contains_key(k) ==> exists|p: int| 0 <= p < hs.len() && (#[trigger] hs[p]).owner@ == k
    &&& s.suspended == (hs.len() > 0)
    &&& hs.len() == 0 ==> s.owner is None && s.reason@.len() == 0 && s.expires_at is None
    &&& hs.len() > 0 ==> {
        &&& s.owner matches Some(o) && o@ == hs[0].owner@
        &&& s.reason@ == hs[0].reason@
        &&& s.expires_at matches Some(e) && (forall|p: int| 0 <= p < hs.len() ==> (#[trigger] hs[p]).expires_at <= e)
            && (exists|p: int| 0 <= p < hs.len() && (#[trigger] hs[p]).expires_at == e)
    }
}

/// `now` plus the TTL (taken as at most `i64::MAX`), saturating at the top
/// of the range.
pub open spec fn expiry_at(now: i64, ttl: u64) -> i64 {
    let t: int = if ttl > i64::MAX { i64::MAX as int } else { ttl as int };
    if now + t > i64::MAX {
        i64::MAX
    } else {
        (now + t) as i64
    }
}

/// `held` is the hold with these fields.
pub open spec fn hold_is(held: HeldSuspension, reason: Seq<char>, ttl_ms: u64, since: i64, expires_at: i64, generation: u64) -> bool {
    &&& held.reason@ == reason
    &&& held.ttl_ms == ttl_ms
    &&& held.since == since
    &&& held.expires_at == expires_at
    &&& held.generation == generation
}

/// `c` is the edge `state`, attributed to `owner`, with `reason`, taken
/// when the table became `m`.
pub open spec fn change_is(c: SuspensionChange, m: Map<Seq<char>, HeldSuspension>, state: SuspensionState, owner: Option<Seq<char>>, reason: Seq<char>, expired: bool) -> bool {
    &&& status_of(m, c.status)
    &&& c.state == state
    &&& match owner {
        Some(o) => c.owner matches Some(x) && x@ == o,
        None => c.owner is None,
    }
    &&& c.reason@ == reason
    &&& c.expired == expired
}

/// The holder name an owner string is recorded under: trimmed, then bounded.
pub open spec fn holder_name(owner: Seq<char>) -> Seq<char> {
    take_utf16(trim_seq(owner), MAX_OWNER_CHARS as nat)
}

/// The per-holder suspension table.
pub struct InputArbiter {
    default_ttl_ms: u64,
    max_ttl_ms: u64,
    holders: StrMap<HeldSuspension>,
    generation: u64,
}

proof fn lemma_holder_lt_total(a: Holder, b: Holder)
    requires
        a.owner@ != b.owner@,
    ensures
        holder_lt(a, b) || holder_lt(b, a),
        !(holder_lt(a, b) && holder_lt(b, a)),
{
    lemma_lex_total(a.owner@, b.owner@);
}

proof fn lemma_holder_lt_transitive(a: Holder, b: Holder, c: Holder)
    requires
        holder_lt(a, b),
        holder_lt(b, c),
    ensures
        holder_lt(a, c),
{
    if a.since == b.since && b.since == c.since {
        lemma_lex_transitive(a.owner@, b.owner@, c.owner@);
    }
}

proof fn lemma_insert_sorted(out: Seq<Holder>, k: int, h: Holder)
    requires
        sorted_holders(out),
        0 <= k <= out.len(),
        forall|p: int| 0 <= p < k ==> holder_lt(#[trigger] out[p], h),
        k < out.len() ==> holder_lt(h, out[k]),
    ensures
        sorted_holders(out.insert(k, h)),
{
    let t = out.insert(k, h);
    assert forall|p: int, q: int| 0 <= p < q < t.len() implies holder_lt(#[trigger] t[p], #[trigger] t[q]) by {
        if q < k {
            assert(t[p] == out[p] && t[q] == out[q]);
        } else if q == k {
            assert(t[p] == out[p]);
        } else if p < k {
            assert(t[p] == out[p] && t[q] == out[q - 1]);
            assert(holder_lt(out[p], h));
            assert(holder_lt(h, out[k]));
            if q - 1 > k {
                lemma_holder_lt_transitive(h, out[k], out[q - 1]);
            }
            lemma_holder_lt_transitive(out[p], h, out[q - 1]);
        } else if p == k {
            assert(t[q] == out[q - 1]);
            if q - 1 > k {
                lemma_holder_lt_transitive(h, out[k], out[q - 1]);
            }
        } else {
            assert(t[p] == out[p - 1] && t[q] == out[q - 1]);
        }
    }
}

impl InputArbiter {
    /// The holder table: holder name to hold.
    pub closed spec fn holders(&self) -> Map<Seq<char>, HeldSuspension> {
        self.holders@
    }

    /// The generation the most recent hold was given.
    pub closed spec fn generation(&self) -> u64 {
        self.generation
    }

    /// The TTL used when the host gives none.
    pub closed spec fn default_ttl_spec(&self) -> u64 {
        self.default_ttl_ms
    }

    /// The cap on a requested TTL.
    pub closed spec fn max_ttl_spec(&self) -> u64 {
        self.max_ttl_ms
    }

    /// The table is well formed.
    pub closed spec fn wf(&self) -> bool {
        self.holders.wf()
    }

    /// An empty table with these TTL bounds.
    pub fn new(default_ttl_ms: u64, max_ttl_ms: u64) -> (r: Self)
        ensures
            r.wf(),
            r.holders() == Map::<Seq<char>, HeldSuspension>::empty(),
            r.generation() == 0,
            r.default_ttl_spec() == default_ttl_ms,
            r.max_ttl_spec() == max_ttl_ms,
    {
        InputArbiter { default_ttl_ms, max_ttl_ms, holders: StrMap::new(), generation: 0 }
    }

    /// The contract bounds: a 15 s default and a 5 min cap.
    pub fn with_default_bounds() -> (r: Self)
        ensures
            r.wf(),
            r.holders() == Map::<Seq<char>, HeldSuspension>::empty(),
            r.generation() == 0,
            r.default_ttl_spec() == DEFAULT_INPUT_SUSPEND_TTL_MS,
            r.max_ttl_spec() == MAX_INPUT_SUSPEND_TTL_MS,
    {
        Self::new(DEFAULT_INPUT_SUSPEND_TTL_MS, MAX_INPUT_SUSPEND_TTL_MS)
    }

    /// The TTL a request is granted: a positive request, capped; otherwise
    /// the default.
    pub open spec fn ttl_spec(&self, ttl_ms: Option<u64>) -> u64 {
        match ttl_ms {
            Some(requested) => if requested > 0 {
                if requested < self.max_ttl_spec() { requested } else { self.max_ttl_spec() }
            } else {
                self.default_ttl_spec()
            },
            None => self.default_ttl_spec(),
        }
    }

    /// The TTL a request is granted.
    pub fn ttl_for(&self, ttl_ms: Option<u64>) -> (r: u64)
        ensures
            r == self.ttl_spec(ttl_ms),
    {
        match ttl_ms {
            Some(requested) => if requested > 0 {
                if requested < self.max_ttl_ms { requested } else { self.max_ttl_ms }
            } else {
                self.default_ttl_ms
            },
            None => self.default_ttl_ms,
        }
    }

    /// Whether anything is holding.
    pub fn suspended(&self) -> (r: bool)
        requires
            self.wf(),
        ensures
            r == (self.holders().len() > 0),
    {
        self.holders.len() > 0
    }

    /// Take or renew a hold for `owner` at time `now`. The owner is trimmed
    /// and bounded; a blank one is refused. A repeated suspend by the same
    /// holder refreshes the deadline and keeps the original `since`; it does
    /// not stack. Each hold gets a fresh generation and an expiry timer. The
    /// suspended edge is reported only when nothing was holding before.
    pub fn suspend(&mut self, owner: &str, reason: &str, ttl_ms: Option<u64>, now: i64) -> (r: Result<SuspendOutcome, OwnerRequired>)
        requires
            old(self).wf(),
        ensures
            final(self).wf(),
            final(self).default_ttl_spec() == old(self).default_ttl_spec(),
            final(self).max_ttl_spec() == old(self).max_ttl_spec(),
            holder_name(owner@).len() == 0 ==> (r matches Err(e) && e.message@ == CODE_INPUT_OWNER_REQUIRED@
                && final(self).holders() == old(self).holders() && final(self).generation() == old(self).generation()),
            holder_name(owner@).len() > 0 ==> (r matches Ok(out) && ({
                let k = holder_name(owner@);
                let ttl = old(self).ttl_spec(ttl_ms);
                let g = next_generation(old(self).generation());
                let m = final(self).holders();
                &&& final(self).generation() == g
                &&& m == old(self).holders().insert(k, m[k])
                &&& hold_is(m[k], take_utf16(reason@, MAX_REASON_CHARS as nat), ttl,
                    if old(self).holders().contains_key(k) { old(self).holders()[k].since } else { now },
                    expiry_at(now, ttl), g)
                &&& out.expiry.owner@ == k && out.expiry.generation == g && out.expiry.ttl_ms == ttl
                &&& status_of(m, out.status)
                &&& out.change is Some == (old(self).holders().len() == 0)
                &&& out.change matches Some(c) ==> change_is(c, m, SuspensionState::Suspended, Some(k), reason@, false)
            })),
    {
        let holder = bounded_utf16(trim(owner), MAX_OWNER_CHARS);
        if holder.as_str().unicode_len() == 0 {
            return Err(OwnerRequired { message: CODE_INPUT_OWNER_REQUIRED.to_owned() });
        }
        let was_suspended = self.holders.len() > 0;
        let ttl = self.ttl_for(ttl_ms);
        self.generation = bump(self.generation);
        let generation = self.generation;
        let since = match self.holders.get(holder.as_str()) {
            Some(existing) => existing.since,
            None => now,
        };
        let t: i64 = if ttl <= 9223372036854775807u64 { ttl as i64 } else { i64::MAX };
        let expires_at: i64 = if now > i64::MAX - t { i64::MAX } else { now + t };
        let held = HeldSuspension {
            reason: bounded_utf16(reason, MAX_REASON_CHARS),
            ttl_ms: ttl,
            since,
            expires_at,
            generation,
        };
        let ghost k = holder@;
        self.holders.insert(holder.clone(), held);
        proof {
            assert(self.holders@ == old(self).holders@.insert(k, self.holders@[k]));
            crate::strmap::lemma_entries_map_len(old(self).holders.seq());
        }
        let change = if !was_suspended {
            Some(SuspensionChange {
                status: self.status(),
                state: SuspensionState::Suspended,
                owner: Some(holder.clone()),
                reason: reason.to_owned(),
                expired: false,
            })
        } else {
            None
        };
        let status = self.status();
        Ok(SuspendOutcome {
            status,
            expiry: ExpiryTimer { owner: holder, generation, ttl_ms: ttl },
            change,
        })
    }

    /// Release `owner`'s hold. Releasing a holder that is not holding changes
    /// nothing and still answers the current status. The resumed edge is
    /// reported only when the last hold goes.
    pub fn resume(&mut self, owner: &str) -> (r: (SuspensionStatus, Option<SuspensionChange>))
        requires
            old(self).wf(),
        ensures
            final(self).wf(),
            final(self).default_ttl_spec() == old(self).default_ttl_spec(),
            final(self).max_ttl_spec() == old(self).max_ttl_spec(),
            final(self).generation() == old(self).generation(),
            ({
                let k = holder_name(owner@);
                let m = final(self).holders();
                &&& m == old(self).holders().remove(k)
                &&& status_of(m, r.0)
                &&& !old(self).holders().contains_key(k) ==> r.1 is None
                &&& old(self).holders().contains_key(k) ==> (r.1 is Some == (m.len() == 0))
                &&& r.1 matches Some(c) ==> change_is(c, m, SuspensionState::Resumed, Some(k), Seq::empty(), false)
            }),
    {
        let holder = bounded_utf16(trim(owner), MAX_OWNER_CHARS);
        match self.holders.remove(holder.as_str()) {
            None => {
                return (self.status(), None);
            },
            Some(_) => {},
        }
        let change = if self.holders.len() == 0 {
            Some(SuspensionChange {
                status: self.status(),
                state: SuspensionState::Resumed,
                owner: Some(holder),
                reason: String::new(),
                expired: false,
            })
        } else {
            None
        };
        (self.status(), change)
    }

    /// An expiry timer fired for `owner` with `generation`. It releases the
    /// hold only when the hold still carries that generation: a renewal
    /// superseded any earlier timer. The resumed edge, attributed to the
    /// expiry, is reported only when the last hold goes.
    pub fn expire(&mut self, owner: &str, generation: u64) -> (r: Option<SuspensionChange>)
        requires
            old(self).wf(),
        ensures
            final(self).wf(),
            final(self).default_ttl_spec() == old(self).default_ttl_spec(),
            final(self).max_ttl_spec() == old(self).max_ttl_spec(),
            final(self).generation() == old(self).generation(),
            ({
                let m0 = old(self).holders();
                let live = m0.contains_key(owner@) && m0[owner@].generation == generation;
                let m = final(self).holders();
                &&& !live ==> m == m0 && r is None
                &&& live ==> m == m0.remove(owner@) && (r is Some == (m.len() == 0))
                &&& r matches Some(c) ==> change_is(c, m, SuspensionState::Resumed, Some(owner@), Seq::empty(), true)
            }),
    {
        match self.holders.get(owner) {
            None => {
                return None;
            },
            Some(existing) => {
                if existing.generation != generation {
                    return None;
                }
            },
        }
        self.holders.remove(owner);
        if self.holders.len() == 0 {
            Some(SuspensionChange {
                status: self.status(),
                state: SuspensionState::Resumed,
                owner: Some(owner.to_owned()),
                reason: String::new(),
                expired: true,
            })
        } else {
            None
        }
    }

    /// Drop every hold. A gateway that stops serving cannot honour a resume,
    /// so held state must not survive into the next run. One resumed edge is
    /// reported, and only when something was holding.
    pub fn release_all(&mut self) -> (r: (SuspensionStatus, Option<SuspensionChange>))
        requires
            old(self).wf(),
        ensures
            final(self).wf(),
            final(self).default_ttl_spec() == old(self).default_ttl_spec(),
            final(self).max_ttl_spec() == old(self).max_ttl_spec(),
            final(self).generation() == old(self).generation(),
            final(self).holders() == Map::<Seq<char>, HeldSuspension>::empty(),
            status_of(final(self).holders(), r.0),
            r.1 is Some == (old(self).holders().len() > 0),
            r.1 matches Some(c) ==> change_is(c, final(self).holders(), SuspensionState::Resumed, None, Seq::empty(), false),
    {
        let was_suspended = self.holders.len() > 0;
        self.holders.clear();
        let change = if was_suspended {
            Some(SuspensionChange {
                status: self.status(),
                state: SuspensionState::Resumed,
                owner: None,
                reason: String::new(),
                expired: false,
            })
        } else {
            None
        };
        (self.status(), change)
    }

    fn holders_in_table_order(&self) -> (r: Vec<Holder>)
        requires
            self.wf(),
        ensures
            r@.len() == self.holders.seq().len(),
            forall|j: int| 0 <= j < r@.len() ==> #[trigger] reports(self.holders.seq()[j].0, self.holders.seq()[j].1, r@[j]),
    {
        let n = self.holders.len();
        let mut out: Vec<Holder> = Vec::new();
        let mut i: usize = 0;
        while i < n
            invariant
                n == self.holders.seq().len(),
                i <= n,
                out@.len() == i,
                forall|j: int| 0 <= j < i ==> #[trigger] reports(self.holders.seq()[j].0, self.holders.seq()[j].1, out@[j]),
            decreases n - i,
        {
            let held = self.holders.value_at(i);
            out.push(Holder {
                owner: self.holders.key_at(i).to_owned(),
                reason: held.reason.clone(),
                ttl_ms: held.ttl_ms,
                since: held.since,
                expires_at: held.expires_at,
            });
            i = i + 1;
        }
        out
    }

    /// The current status: every holder, ordered by `since` then name.
    pub fn status(&self) -> (r: SuspensionStatus)
        requires
            self.wf(),
        ensures
            status_of(self.holders(), r),
    {
        let ghost es = self.holders.seq();
        let src = self.holders_in_table_order();
        proof {
            assert forall|a: int, b: int| 0 <= a < b < src@.len() implies (#[trigger] src@[a]).owner@ != (#[trigger] src@[b]).owner@ by {
                assert(reports(es[a].0, es[a].1, src@[a]));
                assert(reports(es[b].0, es[b].1, src@[b]));
            }
        }
        let latest = latest_expiry(&src);
        let (out, Ghost(pos), Ghost(inv)) = sort_holders(&src);
        proof {
            let m = self.holders@;
            let n = es.len();
            assert forall|p: int| 0 <= p < out@.len() implies m.contains_key((#[trigger] out@[p]).owner@)
                && reports(out@[p].owner@, m[out@[p].owner@], out@[p]) by {
                let j = pos[p];
                assert(out@[p] == src@[j]);
                assert(reports(es[j].0, es[j].1, src@[j]));
                lemma_entries_map_index(es, j);
            }
            assert forall|k: Seq<char>| #[trigger] m.contains_key(k) implies exists|p: int| 0 <= p < out@.len() && (#[trigger] out@[p]).owner@ == k by {
                let j = choose|j: int| 0 <= j < es.len() && es[j].0 == k;
                let p = inv[j];
                assert(reports(es[j].0, es[j].1, src@[j]));
                assert(out@[p] == src@[j]);
            }
            crate::strmap::lemma_entries_map_len(es);
            if n > 0 {
                let e = latest->0;
                assert forall|p: int| 0 <= p < out@.len() implies (#[trigger] out@[p]).expires_at <= e by {
                    assert(out@[p] == src@[pos[p]]);
                }
                let j = choose|j: int| 0 <= j < src@.len() && (#[trigger] src@[j]).expires_at == e;
                assert(out@[inv[j]] == src@[j]);
            }
        }
        if out.len() == 0 {
            SuspensionStatus { suspended: false, holders: out, owner: None, reason: String::new(), expires_at: None }
        } else {
            let owner = out[0].owner.clone();
            let reason = out[0].reason.clone();
            SuspensionStatus { suspended: true, holders: out, owner: Some(owner), reason, expires_at: latest }
        }
    }
}

/// The latest expiry of `hs`, or `None` when it is empty.
fn latest_expiry(hs: &Vec<Holder>) -> (r: Option<i64>)
    ensures
        hs@.len() == 0 ==> r is None,
        hs@.len() > 0 ==> (r matches Some(e) && (forall|p: int| 0 <= p < hs@.len() ==> (#[trigger] hs@[p]).expires_at <= e)
            && (exists|p: int| 0 <= p < hs@.len() && (#[trigger] hs@[p]).expires_at == e)),
{
    if hs.len() == 0 {
        return None;
    }
    let mut latest: i64 = hs[0].expires_at;
    let mut i: usize = 1;
    while i < hs.len()
        invariant
            1 <= i <= hs@.len(),
            forall|p: int| 0 <= p < i ==> (#[trigger] hs@[p]).expires_at <= latest,
            exists|p: int| 0 <= p < i && (#[trigger] hs@[p]).expires_at == latest,
        decreases hs@.len() - i,
    {
        if latest < hs[i].expires_at {
            latest = hs[i].expires_at;
        }
        i = i + 1;
    }
    Some(latest)
}

/// `out` holds `src[0..i]` rearranged: `pos` says where each output came
/// from, `inv` where each source went.
spec fn placed(out: Seq<Holder>, src: Seq<Holder>, pos: Seq<int>, inv: Seq<int>, i: int) -> bool {
    &&& out.len() == i && pos.len() == i && inv.len() == i
    &&& forall|p: int| 0 <= p < i ==> 0 <= #[trigger] pos[p] < i && out[p] == src[pos[p]]
    &&& forall|j: int| 0 <= j < i ==> 0 <= #[trigger] inv[j] < i && pos[inv[j]] == j
}

spec fn shift_from(inv: Seq<int>, k: int) -> Seq<int> {
    inv.map_values(|x: int| if x >= k { x + 1 } else { x })
}

proof fn lemma_place_step(out: Seq<Holder>, src: Seq<Holder>, pos: Seq<int>, inv: Seq<int>, i: int, k: int)
    requires
        placed(out, src, pos, inv, i),
        0 <= i < src.len(),
        0 <= k <= i,
    ensures
        placed(out.insert(k, src[i]), src, pos.insert(k, i), shift_from(inv, k).push(k), i + 1),
{
    let out2 = out.insert(k, src[i]);
    let pos2 = pos.insert(k, i);
    let inv2 = shift_from(inv, k).push(k);
    assert forall|p: int| 0 <= p < i + 1 implies 0 <= #[trigger] pos2[p] < i + 1 && out2[p] == src[pos2[p]] by {
        if p < k {
            assert(pos2[p] == pos[p] && out2[p] == out[p]);
        } else if p > k {
            assert(pos2[p] == pos[p - 1] && out2[p] == out[p - 1]);
        }
    }
    assert forall|j: int| 0 <= j < i + 1 implies 0 <= #[trigger] inv2[j] < i + 1 && pos2[inv2[j]] == j by {
        if j < i {
            let x = inv[j];
            assert(inv2[j] == if x >= k { x + 1 } else { x });
            if x >= k {
                assert(pos2[x + 1] == pos[x]);
            } else {
                assert(pos2[x] == pos[x]);
            }
        } else {
            assert(inv2[j] == k);
        }
    }
}

/// Sort holders with pairwise distinct names by `since`, then name.
fn sort_holders(src: &Vec<Holder>) -> (r: (Vec<Holder>, Ghost<Seq<int>>, Ghost<Seq<int>>))
    requires
        forall|a: int, b: int| 0 <= a < b < src@.len() ==> (#[trigger] src@[a]).owner@ != (#[trigger] src@[b]).owner@,
    ensures
        sorted_holders(r.0@),
        placed(r.0@, src@, r.1@, r.2@, src@.len() as int),
{
    let mut out: Vec<Holder> = Vec::new();
    let ghost mut pos: Seq<int> = Seq::empty();
    let ghost mut inv: Seq<int> = Seq::empty();
    let mut i: usize = 0;
    while i < src.len()
        invariant
            i <= src@.len(),
            forall|a: int, b: int| 0 <= a < b < src@.len() ==> (#[trigger] src@[a]).owner@ != (#[trigger] src@[b]).owner@,
            sorted_holders(out@),
            placed(out@, src@, pos, inv, i as int),
        decreases src@.len() - i,
    {
        let h = Holder {
            owner: src[i].owner.clone(),
            reason: src[i].reason.clone(),
            ttl_ms: src[i].ttl_ms,
            since: src[i].since,
            expires_at: src[i].expires_at,
        };
        assert(h == src@[i as int]);
        let mut k: usize = 0;
        while k < out.len() && !(h.since < out[k].since || (h.since == out[k].since && str_lt(h.owner.as_str(), out[k].owner.as_str())))
            invariant
                k <= out@.len(),
                forall|p: int| 0 <= p < k ==> !holder_lt(h, #[trigger] out@[p]),
            decreases out@.len() - k,
        {
            k = k + 1;
        }
        proof {
            assert forall|p: int| 0 <= p < k implies holder_lt(#[trigger] out@[p], h) by {
                let j = pos[p];
                assert(out@[p] == src@[j]);
                assert(j != i);
                lemma_holder_lt_total(out@[p], h);
            }
            lemma_insert_sorted(out@, k as int, h);
            lemma_place_step(out@, src@, pos, inv, i as int, k as int);
            pos = pos.insert(k as int, i as int);
            inv = shift_from(inv, k as int).push(k as int);
        }
        out.insert(k, h);
        i = i + 1;
    }
    (out, Ghost(pos), Ghost(inv))
}

} // verus!
