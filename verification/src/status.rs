//! Realtime connection state and the `/api/health` aggregation.

use vstd::prelude::*;
use crate::mode::{Degradation, ModePlan, SessionMode, effective_mode};
use crate::strmap::{StrMap, entries_map, lemma_entries_map_index};

verus! {

/// One frontend's realtime connection state.
#[derive(Clone, Copy, Debug, Default, PartialEq, Eq, Hash)]
pub enum RealtimeState {
    /// The session is ready.
    Connected,
    /// A connect is in flight.
    Connecting,
    /// No session and no connect.
    #[default]
    Disconnected,
    /// The provider is blocked.
    Unavailable,
    /// The session is wake-word-only.
    Sleeping,
    /// The socket is coming back.
    Waking,
}

impl RealtimeState {
    /// The wire spelling.
    pub open spec fn wire(self) -> Seq<char> {
        match self {
            RealtimeState::Connected => "connected"@,
            RealtimeState::Connecting => "connecting"@,
            RealtimeState::Disconnected => "disconnected"@,
            RealtimeState::Unavailable => "unavailable"@,
            RealtimeState::Sleeping => "sleeping"@,
            RealtimeState::Waking => "waking"@,
        }
    }

    /// The wire spelling.
    pub fn as_str(self) -> (r: &'static str)
        ensures
            r@ == self.wire(),
    {
        match self {
            RealtimeState::Connected => "connected",
            RealtimeState::Connecting => "connecting",
            RealtimeState::Disconnected => "disconnected",
            RealtimeState::Unavailable => "unavailable",
            RealtimeState::Sleeping => "sleeping",
            RealtimeState::Waking => "waking",
        }
    }

    /// Every state, in declaration order.
    pub const ALL: [RealtimeState; 6] = [
        RealtimeState::Connected,
        RealtimeState::Connecting,
        RealtimeState::Disconnected,
        RealtimeState::Unavailable,
        RealtimeState::Sleeping,
        RealtimeState::Waking,
    ];
}

/// The facts the state is derived from.
#[derive(Clone, Debug, Default, PartialEq, Eq)]
pub struct RealtimeStateInputs {
    /// The provider key.
    pub provider: String,
    /// The fatal error that blocked the provider, empty when none did.
    pub blocked_error: String,
    /// The session is asleep.
    pub sleeping: bool,
    /// The session is waking.
    pub waking: bool,
    /// The session is ready.
    pub ready: bool,
    /// A connect is in flight.
    pub connecting: bool,
}

/// What `/api/health` reports for one frontend.
#[derive(Clone, Debug, Default, PartialEq, Eq)]
pub struct RealtimeStatus {
    /// The provider key.
    pub provider: String,
    /// The state.
    pub state: RealtimeState,
    /// The blocking error, only when the provider is unavailable.
    pub error: Option<String>,
}

/// The state precedence: a blocked provider first, then waking, sleeping,
/// ready, connecting, and otherwise disconnected.
pub open spec fn state_of(inputs: RealtimeStateInputs) -> RealtimeState {
    if inputs.blocked_error@.len() > 0 {
        RealtimeState::Unavailable
    } else if inputs.waking {
        RealtimeState::Waking
    } else if inputs.sleeping {
        RealtimeState::Sleeping
    } else if inputs.ready {
        RealtimeState::Connected
    } else if inputs.connecting {
        RealtimeState::Connecting
    } else {
        RealtimeState::Disconnected
    }
}

/// Derive one frontend's status.
pub fn realtime_connection_status(inputs: &RealtimeStateInputs) -> (r: RealtimeStatus)
    ensures
        r.provider@ == inputs.provider@,
        r.state == state_of(*inputs),
        inputs.blocked_error@.len() > 0 ==> (r.error matches Some(e) && e@ == inputs.blocked_error@),
        inputs.blocked_error@.len() == 0 ==> r.error is None,
{
    let blocked = !inputs.blocked_error.as_str().is_empty();
    let state = if blocked {
        RealtimeState::Unavailable
    } else if inputs.waking {
        RealtimeState::Waking
    } else if inputs.sleeping {
        RealtimeState::Sleeping
    } else if inputs.ready {
        RealtimeState::Connected
    } else if inputs.connecting {
        RealtimeState::Connecting
    } else {
        RealtimeState::Disconnected
    };
    RealtimeStatus {
        provider: inputs.provider.clone(),
        state,
        error: if blocked { Some(inputs.blocked_error.clone()) } else { None },
    }
}

/// Per-state counts.
#[derive(Clone, Debug, Default, PartialEq, Eq)]
pub struct StateCounts {
    /// `connected`.
    pub connected: usize,
    /// `connecting`.
    pub connecting: usize,
    /// `disconnected`.
    pub disconnected: usize,
    /// `unavailable`.
    pub unavailable: usize,
    /// `sleeping`.
    pub sleeping: usize,
    /// `waking`.
    pub waking: usize,
    /// The blocking error, when any frontend in this bucket has one: the
    /// last such frontend's.
    pub error: Option<String>,
}

/// The count a state is tallied in.
pub open spec fn count_of(c: StateCounts, state: RealtimeState) -> usize {
    match state {
        RealtimeState::Connected => c.connected,
        RealtimeState::Connecting => c.connecting,
        RealtimeState::Disconnected => c.disconnected,
        RealtimeState::Unavailable => c.unavailable,
        RealtimeState::Sleeping => c.sleeping,
        RealtimeState::Waking => c.waking,
    }
}

impl StateCounts {
    /// All zero, no error.
    pub fn zero() -> (r: Self)
        ensures
            forall|s: RealtimeState| count_of(r, s) == 0,
            r.error is None,
    {
        StateCounts { connected: 0, connecting: 0, disconnected: 0, unavailable: 0, sleeping: 0, waking: 0, error: None }
    }

    /// Count one more frontend in `state`.
    pub fn increment(&mut self, state: RealtimeState)
        requires
            count_of(*old(self), state) < usize::MAX,
        ensures
            count_of(*final(self), state) == count_of(*old(self), state) + 1,
            forall|s: RealtimeState| s != state ==> count_of(*final(self), s) == count_of(*old(self), s),
            final(self).error == old(self).error,
    {
        match state {
            RealtimeState::Connected => self.connected = self.connected + 1,
            RealtimeState::Connecting => self.connecting = self.connecting + 1,
            RealtimeState::Disconnected => self.disconnected = self.disconnected + 1,
            RealtimeState::Unavailable => self.unavailable = self.unavailable + 1,
            RealtimeState::Sleeping => self.sleeping = self.sleeping + 1,
            RealtimeState::Waking => self.waking = self.waking + 1,
        }
    }
}

/// The kind of frontend a client is.
#[derive(Clone, Copy, Debug, PartialEq, Eq, Hash)]
pub enum ClientType {
    /// The desktop app.
    Desktop,
    /// The terminal client.
    Cli,
    /// The web UI.
    Web,
}

/// Per-type counts.
#[derive(Clone, Debug, Default, PartialEq, Eq)]
pub struct ClientTypeCounts {
    /// Desktop clients.
    pub desktop: usize,
    /// Terminal clients.
    pub cli: usize,
    /// Web clients.
    pub web: usize,
}

/// The realtime half of the health payload.
#[derive(Clone, Debug, PartialEq, Eq)]
pub struct RealtimeAggregate {
    /// Every frontend, by state.
    pub totals: StateCounts,
    /// Provider key → its frontends, by state, in order of first appearance.
    pub by_provider: StrMap<StateCounts>,
}

/// One frontend's entry in the aggregation.
#[derive(Clone, Debug, PartialEq, Eq)]
pub struct VoiceClientStatus {
    /// The kind of frontend.
    pub client_type: ClientType,
    /// Its realtime status.
    pub realtime: RealtimeStatus,
    /// Its mode plan.
    pub mode: ModePlan,
}

/// One reported degradation row.
#[derive(Clone, Debug, PartialEq, Eq)]
pub struct DegradedMode {
    /// The requested mode.
    pub requested: String,
    /// The mode it runs as.
    pub effective: String,
    /// The degradation code.
    pub reason: String,
    /// How many sessions share this row.
    pub sessions: usize,
}

/// The `/api/health` voice payload.
#[derive(Clone, Debug, PartialEq, Eq)]
pub struct VoiceClientsHealth {
    /// Connected frontends.
    pub connected: usize,
    /// Owners with an active voice client.
    pub active_owners: usize,
    /// Frontends by type.
    pub by_type: ClientTypeCounts,
    /// Frontends by realtime state.
    pub realtime: RealtimeAggregate,
    /// The degraded sessions, one row per (requested, effective, reason), in
    /// key order.
    pub degraded_modes: Vec<DegradedMode>,
}

/// How many of `s` are of type `t`.
pub open spec fn type_count(s: Seq<VoiceClientStatus>, t: ClientType) -> nat
    decreases s.len(),
{
    if s.len() == 0 {
        0
    } else {
        type_count(s.drop_last(), t) + if s.last().client_type == t { 1nat } else { 0nat }
    }
}

/// How many of `s` are in `state`.
pub open spec fn state_count(s: Seq<VoiceClientStatus>, state: RealtimeState) -> nat
    decreases s.len(),
{
    if s.len() == 0 {
        0
    } else {
        state_count(s.drop_last(), state) + if s.last().realtime.state == state { 1nat } else { 0nat }
    }
}

/// How many of `s` use provider `p` and are in `state`.
pub open spec fn provider_state_count(s: Seq<VoiceClientStatus>, p: Seq<char>, state: RealtimeState) -> nat
    decreases s.len(),
{
    if s.len() == 0 {
        0
    } else {
        provider_state_count(s.drop_last(), p, state) + if s.last().realtime.provider@ == p
            && s.last().realtime.state == state { 1nat } else { 0nat }
    }
}

/// The error of the last frontend of provider `p` that reported one.
pub open spec fn provider_last_error(s: Seq<VoiceClientStatus>, p: Seq<char>) -> Option<String>
    decreases s.len(),
{
    if s.len() == 0 {
        None
    } else if s.last().realtime.provider@ == p && s.last().realtime.error is Some {
        s.last().realtime.error
    } else {
        provider_last_error(s.drop_last(), p)
    }
}

/// The blocking error of the last frontend in `s` that reports one.
pub open spec fn last_error(s: Seq<VoiceClientStatus>) -> Option<String>
    decreases s.len(),
{
    if s.len() == 0 {
        None
    } else if s.last().realtime.error is Some {
        s.last().realtime.error
    } else {
        last_error(s.drop_last())
    }
}

/// Whether some frontend of `s` uses provider `p`.
pub open spec fn has_provider(s: Seq<VoiceClientStatus>, p: Seq<char>) -> bool {
    exists|i: int| 0 <= i < s.len() && (#[trigger] s[i]).realtime.provider@ == p
}

/// How many of `s` report degradation `d`.
pub open spec fn degraded_count(s: Seq<VoiceClientStatus>, d: Degradation) -> nat
    decreases s.len(),
{
    if s.len() == 0 {
        0
    } else {
        degraded_count(s.drop_last(), d) + if s.last().mode.degradation_spec() == Some(d) { 1nat } else { 0nat }
    }
}

/// Every frontend's counts for provider `p` are tallied.
pub open spec fn provider_counts_ok(s: Seq<VoiceClientStatus>, p: Seq<char>, c: StateCounts) -> bool {
    &&& forall|st: RealtimeState| count_of(c, st) == provider_state_count(s, p, st)
    &&& c.error == provider_last_error(s, p)
}

/// Whether a degradation row describes `d`.
pub open spec fn row_is(row: DegradedMode, d: Degradation, n: nat) -> bool {
    &&& row.requested@ == (match d {
        Degradation::NoHarness => SessionMode::Agent.wire(),
        Degradation::ContextEngineUnavailable => SessionMode::Interface.wire(),
    })
    &&& row.effective@ == SessionMode::Direct.wire()
    &&& row.reason@ == d.code()
    &&& row.sessions == n
}

/// The degradation rows: one per degradation that occurs, `no_harness`
/// (`agent`) before `context_engine_unavailable` (`interface`).
pub open spec fn degraded_rows_ok(s: Seq<VoiceClientStatus>, rows: Seq<DegradedMode>) -> bool {
    let a = degraded_count(s, Degradation::NoHarness);
    let b = degraded_count(s, Degradation::ContextEngineUnavailable);
    if a > 0 && b > 0 {
        rows.len() == 2 && row_is(rows[0], Degradation::NoHarness, a) && row_is(rows[1], Degradation::ContextEngineUnavailable, b)
    } else if a > 0 {
        rows.len() == 1 && row_is(rows[0], Degradation::NoHarness, a)
    } else if b > 0 {
        rows.len() == 1 && row_is(rows[0], Degradation::ContextEngineUnavailable, b)
    } else {
        rows.len() == 0
    }
}

proof fn lemma_counts_bounded(s: Seq<VoiceClientStatus>, p: Seq<char>, st: RealtimeState, t: ClientType, d: Degradation)
    ensures
        type_count(s, t) <= s.len(),
        state_count(s, st) <= s.len(),
        provider_state_count(s, p, st) <= s.len(),
        degraded_count(s, d) <= s.len(),
    decreases s.len(),
{
    if s.len() > 0 {
        lemma_counts_bounded(s.drop_last(), p, st, t, d);
    }
}

proof fn lemma_provider_absent(s: Seq<VoiceClientStatus>, p: Seq<char>, st: RealtimeState)
    requires
        !has_provider(s, p),
    ensures
        provider_state_count(s, p, st) == 0,
        provider_last_error(s, p) is None,
    decreases s.len(),
{
    if s.len() > 0 {
        assert(s.last() == s[s.len() - 1]);
        assert(!has_provider(s.drop_last(), p)) by {
            if has_provider(s.drop_last(), p) {
                let i = choose|i: int| 0 <= i < s.drop_last().len() && (#[trigger] s.drop_last()[i]).realtime.provider@ == p;
                assert(s[i] == s.drop_last()[i]);
            }
        }
        lemma_provider_absent(s.drop_last(), p, st);
    }
}

proof fn lemma_provider_other(pre: Seq<VoiceClientStatus>, post: Seq<VoiceClientStatus>, q: Seq<char>, c: StateCounts)
    requires
        post.len() > 0,
        post.drop_last() == pre,
        post.last().realtime.provider@ != q,
        provider_counts_ok(pre, q, c),
    ensures
        provider_counts_ok(post, q, c),
{
    assert forall|st: RealtimeState| count_of(c, st) == provider_state_count(post, q, st) by {
        assert(count_of(c, st) == provider_state_count(pre, q, st));
    }
}

proof fn lemma_provider_same(pre: Seq<VoiceClientStatus>, post: Seq<VoiceClientStatus>, c0: StateCounts, c: StateCounts)
    requires
        post.len() > 0,
        post.drop_last() == pre,
        provider_counts_ok(pre, post.last().realtime.provider@, c0),
        forall|st: RealtimeState| #[trigger] count_of(c, st) == count_of(c0, st) + if st == post.last().realtime.state { 1int } else { 0int },
        c.error == (if post.last().realtime.error is Some { post.last().realtime.error } else { c0.error }),
    ensures
        provider_counts_ok(post, post.last().realtime.provider@, c),
{
    let p = post.last().realtime.provider@;
    assert forall|st: RealtimeState| count_of(c, st) == provider_state_count(post, p, st) by {
        assert(count_of(c0, st) == provider_state_count(pre, p, st));
    }
}

/// Count the frontends by type, by state and by provider, and report every
/// degraded session.
pub fn aggregate(clients: &[VoiceClientStatus], active_owners: usize) -> (r: VoiceClientsHealth)
    ensures
        r.connected == clients@.len(),
        r.active_owners == active_owners,
        r.by_type.desktop == type_count(clients@, ClientType::Desktop),
        r.by_type.cli == type_count(clients@, ClientType::Cli),
        r.by_type.web == type_count(clients@, ClientType::Web),
        forall|st: RealtimeState| count_of(r.realtime.totals, st) == state_count(clients@, st),
        r.realtime.totals.error == last_error(clients@),
        r.realtime.by_provider.wf(),
        forall|p: Seq<char>| #[trigger] r.realtime.by_provider@.contains_key(p) == has_provider(clients@, p),
        forall|p: Seq<char>| #[trigger] r.realtime.by_provider@.contains_key(p) ==> provider_counts_ok(clients@, p, r.realtime.by_provider@[p]),
        degraded_rows_ok(clients@, r.degraded_modes@),
{
    let mut by_type = ClientTypeCounts { desktop: 0, cli: 0, web: 0 };
    let mut totals = StateCounts::zero();
    let mut by_provider: StrMap<StateCounts> = StrMap::new();
    let mut no_harness: usize = 0;
    let mut no_engine: usize = 0;
    let mut i: usize = 0;
    while i < clients.len()
        invariant
            i <= clients@.len(),
            by_type.desktop == type_count(clients@.take(i as int), ClientType::Desktop),
            by_type.cli == type_count(clients@.take(i as int), ClientType::Cli),
            by_type.web == type_count(clients@.take(i as int), ClientType::Web),
            forall|st: RealtimeState| count_of(totals, st) == state_count(clients@.take(i as int), st),
            totals.error == last_error(clients@.take(i as int)),
            by_provider.wf(),
            forall|p: Seq<char>| #[trigger] by_provider@.contains_key(p) == has_provider(clients@.take(i as int), p),
            forall|p: Seq<char>| #[trigger] by_provider@.contains_key(p) ==> provider_counts_ok(clients@.take(i as int), p, by_provider@[p]),
            no_harness == degraded_count(clients@.take(i as int), Degradation::NoHarness),
            no_engine == degraded_count(clients@.take(i as int), Degradation::ContextEngineUnavailable),
        decreases clients.len() - i,
    {
        let ghost pre = clients@.take(i as int);
        let ghost post = clients@.take(i + 1);
        assert(post.drop_last() =~= pre);
        assert(post.last() == clients@[i as int]);
        let client = &clients[i];
        proof {
            lemma_counts_bounded(pre, client.realtime.provider@, client.realtime.state, client.client_type, Degradation::NoHarness);
            lemma_counts_bounded(pre, client.realtime.provider@, client.realtime.state, client.client_type, Degradation::ContextEngineUnavailable);
        }
        match client.client_type {
            ClientType::Desktop => by_type.desktop = by_type.desktop + 1,
            ClientType::Cli => by_type.cli = by_type.cli + 1,
            ClientType::Web => by_type.web = by_type.web + 1,
        }
        totals.increment(client.realtime.state);
        let ghost t0 = totals;
        if let Some(error) = &client.realtime.error {
            totals.error = Some(error.clone());
        }
        assert forall|st: RealtimeState| count_of(totals, st) == count_of(t0, st) by {}
        let ghost p = client.realtime.provider@;
        match by_provider.index_of(client.realtime.provider.as_str()) {
            Some(k) => {
                let mut counts = by_provider.value_at(k).clone_counts();
                let ghost c0 = counts;
                proof {
                    lemma_entries_map_index(by_provider.seq(), k as int);
                    assert(provider_counts_ok(pre, p, counts));
                }
                counts.increment(client.realtime.state);
                if let Some(error) = &client.realtime.error {
                    counts.error = Some(error.clone());
                }
                proof {
                    lemma_provider_same(pre, post, c0, counts);
                }
                by_provider.set_value_at(k, counts);
            },
            None => {
                let mut counts = StateCounts::zero();
                let ghost c0 = counts;
                proof {
                    assert(!has_provider(pre, p));
                    assert forall|st: RealtimeState| count_of(c0, st) == provider_state_count(pre, p, st) by {
                        lemma_provider_absent(pre, p, st);
                    }
                    lemma_provider_absent(pre, p, client.realtime.state);
                }
                counts.increment(client.realtime.state);
                if let Some(error) = &client.realtime.error {
                    counts.error = Some(error.clone());
                }
                proof {
                    lemma_provider_same(pre, post, c0, counts);
                }
                by_provider.insert(client.realtime.provider.clone(), counts);
            },
        }
        match client.mode.degradation() {
            Some(Degradation::NoHarness) => no_harness = no_harness + 1,
            Some(Degradation::ContextEngineUnavailable) => no_engine = no_engine + 1,
            None => {},
        }
        proof {
            assert forall|q: Seq<char>| #[trigger] by_provider@.contains_key(q) == has_provider(post, q) by {
                if has_provider(pre, q) {
                    let j = choose|j: int| 0 <= j < pre.len() && (#[trigger] pre[j]).realtime.provider@ == q;
                    assert(post[j] == pre[j]);
                }
                if q == p {
                    assert(post[i as int].realtime.provider@ == q);
                }
                if has_provider(post, q) && q != p {
                    let j = choose|j: int| 0 <= j < post.len() && (#[trigger] post[j]).realtime.provider@ == q;
                    assert(j < i);
                    assert(pre[j] == post[j]);
                }
            }
            assert forall|q: Seq<char>| #[trigger] by_provider@.contains_key(q) implies provider_counts_ok(post, q, by_provider@[q]) by {
                if q != p {
                    lemma_provider_other(pre, post, q, by_provider@[q]);
                }
            }
        }
        i = i + 1;
    }
    assert(clients@.take(clients@.len() as int) =~= clients@);
    let mut degraded_modes: Vec<DegradedMode> = Vec::new();
    if no_harness > 0 {
        degraded_modes.push(DegradedMode {
            requested: SessionMode::Agent.as_str().to_owned(),
            effective: SessionMode::Direct.as_str().to_owned(),
            reason: Degradation::NoHarness.as_str().to_owned(),
            sessions: no_harness,
        });
    }
    if no_engine > 0 {
        degraded_modes.push(DegradedMode {
            requested: SessionMode::Interface.as_str().to_owned(),
            effective: SessionMode::Direct.as_str().to_owned(),
            reason: Degradation::ContextEngineUnavailable.as_str().to_owned(),
            sessions: no_engine,
        });
    }
    VoiceClientsHealth {
        connected: clients.len(),
        active_owners,
        by_type,
        realtime: RealtimeAggregate { totals, by_provider },
        degraded_modes,
    }
}

impl StateCounts {
    /// A copy of these counts.
    pub fn clone_counts(&self) -> (r: Self)
        ensures
            r == *self,
    {
        StateCounts {
            connected: self.connected,
            connecting: self.connecting,
            disconnected: self.disconnected,
            unavailable: self.unavailable,
            sleeping: self.sleeping,
            waking: self.waking,
            error: match &self.error {
                Some(e) => Some(e.clone()),
                None => None,
            },
        }
    }
}

/// The degradation a code names, if any.
pub open spec fn degradation_of_code(code: Seq<char>) -> Option<Degradation> {
    if code == Degradation::NoHarness.code() {
        Some(Degradation::NoHarness)
    } else if code == Degradation::ContextEngineUnavailable.code() {
        Some(Degradation::ContextEngineUnavailable)
    } else {
        None
    }
}

/// Parse a degradation code.
pub fn degradation_from_reason(reason: &str) -> (r: Option<Degradation>)
    ensures
        r == degradation_of_code(reason@),
{
    proof {
        reveal_strlit("no_harness");
        reveal_strlit("context_engine_unavailable");
    }
    if crate::chars::str_eq(reason, "no_harness") {
        Some(Degradation::NoHarness)
    } else if crate::chars::str_eq(reason, "context_engine_unavailable") {
        Some(Degradation::ContextEngineUnavailable)
    } else {
        None
    }
}

/// A degradation's code parses back to that degradation.
pub proof fn lemma_degradation_code_round_trip(d: Degradation)
    ensures
        degradation_of_code(d.code()) == Some(d),
{
    reveal_strlit("no_harness");
    reveal_strlit("context_engine_unavailable");
    assert(Degradation::NoHarness.code().len() != Degradation::ContextEngineUnavailable.code().len());
}

/// A ready session reports itself connected, whether or not a connect is
/// also in flight, unless a blocked provider, a wake or sleep comes first;
/// and it is connected only then.
pub proof fn lemma_ready_means_connected(inputs: RealtimeStateInputs)
    ensures
        (state_of(inputs) == RealtimeState::Connected) == (inputs.blocked_error@.len() == 0 && !inputs.waking
            && !inputs.sleeping && inputs.ready),
{
}

/// Whether a connect is in flight matters only to a session that is not
/// ready: two sessions that differ only there report the same state once
/// ready.
pub proof fn lemma_connecting_is_moot_once_ready(a: RealtimeStateInputs, b: RealtimeStateInputs)
    requires
        a.blocked_error@ == b.blocked_error@,
        a.waking == b.waking,
        a.sleeping == b.sleeping,
        a.ready && b.ready,
    ensures
        state_of(a) == state_of(b),
{
}

/// The states in order of precedence: a blocked provider is unavailable;
/// otherwise a wake, then sleep, then readiness, then a connect in flight
/// decides, and a session with none of them is disconnected.
pub proof fn lemma_connection_state_precedence(inputs: RealtimeStateInputs)
    ensures
        (state_of(inputs) == RealtimeState::Unavailable) == (inputs.blocked_error@.len() > 0),
        (state_of(inputs) == RealtimeState::Waking) == (inputs.blocked_error@.len() == 0 && inputs.waking),
        (state_of(inputs) == RealtimeState::Sleeping) == (inputs.blocked_error@.len() == 0 && !inputs.waking
            && inputs.sleeping),
        (state_of(inputs) == RealtimeState::Connecting) == (inputs.blocked_error@.len() == 0 && !inputs.waking
            && !inputs.sleeping && !inputs.ready && inputs.connecting),
        (state_of(inputs) == RealtimeState::Disconnected) == (inputs.blocked_error@.len() == 0 && !inputs.waking
            && !inputs.sleeping && !inputs.ready && !inputs.connecting),
{
}

} // verus!
