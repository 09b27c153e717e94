//! The announcement queue: batching, delivery, retry and the claim.
//!
//! This is the delivery half of the Injection Gate; the blocking half is
//! [`crate::announcement::window::AnnouncementWindow`]. This half decides what
//! is spoken, when it is retried, and when it counts as delivered.
//!
//! Delivered means played, not generated: a batch is marked delivered only
//! when the client reports playback, through [`AnnouncementQueue::confirm`].
//! Everything else is a retry, and retries are bounded: exhausting them
//! abandons the batch and releases its claims, so one malformed result cannot
//! block every later completion. While a batch is active its notification
//! claim is renewed on a heartbeat.
//!
//! The queue is a state machine. Each step answers the [`Effects`] the host
//! carries out: timers to arm (each tagged with an epoch; a fired timer whose
//! epoch is no longer current does nothing), claims to mark delivered, renew
//! or release, and a response to speak.

use indexmap::IndexMap;
use vstd::prelude::*;
use crate::announcement::format::{format_work_results, instant_of, truncate_result, work_results_lines, join_lines, truncate_spec, Announcement};
use crate::chars::str_eq;
use crate::frontend::{ResponseOutcome, ResponseRequestContext};
use crate::imap::{
    announcement_entries, announcement_map_clear, announcement_map_index_of, announcement_map_insert,
    announcement_map_key_at, announcement_map_len, announcement_map_new, announcement_map_shift_remove,
    announcement_map_value_at,
};
use crate::response::{clone_strings, ResponseOrigin};
use crate::sleep::{bump, next_generation};
use crate::strmap::{distinct_keys, has_key, lemma_key_index, seq_insert_entry, seq_remove_entry};
use crate::text::code_point_len;

verus! {

/// How many finished Work items may be presented at once.
pub const DEFAULT_MAX_BATCH_ITEMS: usize = 8;

/// How long to wait for a second result before speaking the first.
pub const DEFAULT_BATCH_WINDOW_MS: u64 = 120;

/// The first retry delay.
pub const DEFAULT_RETRY_BASE_MS: u64 = 1000;

/// The retry delay ceiling.
pub const DEFAULT_RETRY_MAX_MS: u64 = 10000;

/// How long a generated-but-unplayed batch waits before being re-delivered:
/// long or queued desktop audio may legitimately take minutes.
pub const DEFAULT_ACKNOWLEDGEMENT_TIMEOUT_MS: u64 = 120000;

/// How many times one batch is retried before it is abandoned.
pub const DEFAULT_MAX_RETRY_ATTEMPTS: u32 = 8;

/// How often the notification claim is renewed while a batch is active.
pub const DEFAULT_LEASE_RENEW_INTERVAL_MS: u64 = 20000;

/// How many code points of result text one batch may carry.
pub const DEFAULT_RESULT_CONTEXT_MAX_CHARS: usize = 6000;

/// The exponent cap on the retry backoff.
pub const RETRY_EXPONENT_CAP: u32 = 4;

/// A claim sink that does nothing, for a gateway with no Work manager.
#[derive(Clone, Copy, Debug, Default)]
pub struct NoClaims;

/// How the queue is configured.
#[derive(Clone, Debug, PartialEq, Eq)]
pub struct AnnouncementManagerConfig {
    /// Whether the results are written into the model's conversation as well
    /// as spoken.
    pub announce_into_context: bool,
    /// The code-point budget for one batch's text.
    pub result_context_max_chars: usize,
    /// How many items one batch may carry.
    pub max_batch_items: usize,
    /// How long to wait for a second result.
    pub batch_window_ms: u64,
    /// The first retry delay.
    pub retry_base_ms: u64,
    /// The retry delay ceiling.
    pub retry_max_ms: u64,
    /// How long a generated batch waits for a playback receipt.
    pub acknowledgement_timeout_ms: u64,
    /// How many retries before abandoning.
    pub max_retry_attempts: u32,
    /// The claim heartbeat.
    pub lease_renew_interval_ms: u64,
    /// The catalog's header for a batch of results.
    pub results_header: String,
    /// The catalog's truncation notice.
    pub truncation_suffix: String,
}

impl AnnouncementManagerConfig {
    /// The contract defaults, with the catalog's two sentences.
    pub fn new(results_header: &str, truncation_suffix: &str) -> (r: Self)
        ensures
            r.announce_into_context,
            r.result_context_max_chars == DEFAULT_RESULT_CONTEXT_MAX_CHARS,
            r.max_batch_items == DEFAULT_MAX_BATCH_ITEMS,
            r.batch_window_ms == DEFAULT_BATCH_WINDOW_MS,
            r.retry_base_ms == DEFAULT_RETRY_BASE_MS,
            r.retry_max_ms == DEFAULT_RETRY_MAX_MS,
            r.acknowledgement_timeout_ms == DEFAULT_ACKNOWLEDGEMENT_TIMEOUT_MS,
            r.max_retry_attempts == DEFAULT_MAX_RETRY_ATTEMPTS,
            r.lease_renew_interval_ms == DEFAULT_LEASE_RENEW_INTERVAL_MS,
            r.results_header@ == results_header@,
            r.truncation_suffix@ == truncation_suffix@,
    {
        AnnouncementManagerConfig {
            announce_into_context: true,
            result_context_max_chars: DEFAULT_RESULT_CONTEXT_MAX_CHARS,
            max_batch_items: DEFAULT_MAX_BATCH_ITEMS,
            batch_window_ms: DEFAULT_BATCH_WINDOW_MS,
            retry_base_ms: DEFAULT_RETRY_BASE_MS,
            retry_max_ms: DEFAULT_RETRY_MAX_MS,
            acknowledgement_timeout_ms: DEFAULT_ACKNOWLEDGEMENT_TIMEOUT_MS,
            max_retry_attempts: DEFAULT_MAX_RETRY_ATTEMPTS,
            lease_renew_interval_ms: DEFAULT_LEASE_RENEW_INTERVAL_MS,
            results_header: results_header.to_owned(),
            truncation_suffix: truncation_suffix.to_owned(),
        }
    }
}

/// The batch being presented.
#[derive(Clone, Debug, PartialEq, Eq)]
pub struct Batch {
    /// The announcements, in queue order.
    pub announcements: Vec<Announcement>,
    /// Their Work ids.
    pub work_ids: Vec<String>,
    /// Their non-empty turn ids.
    pub turn_ids: Vec<String>,
    /// The first announcement's sequence number.
    pub delivery_sequence: u64,
    /// The context item was written into the conversation.
    pub context_injected: bool,
    /// The provider generated the response.
    pub response_completed: bool,
    /// A retry was asked for while a delivery was in flight.
    pub retry_requested: bool,
    /// The Work ids confirmed so far.
    pub acknowledged: Vec<String>,
}

/// Whether `s` holds `x`.
pub open spec fn holds_id(s: Seq<String>, x: Seq<char>) -> bool {
    exists|i: int| 0 <= i < s.len() && (#[trigger] s[i])@ == x
}

fn holds_id_exec(s: &Vec<String>, x: &str) -> (r: bool)
    ensures
        r == holds_id(s@, x@),
{
    let mut i: usize = 0;
    while i < s.len()
        invariant
            i <= s@.len(),
            forall|j: int| 0 <= j < i ==> (#[trigger] s@[j])@ != x@,
        decreases s.len() - i,
    {
        if str_eq(s[i].as_str(), x) {
            return true;
        }
        i = i + 1;
    }
    false
}

impl Batch {
    /// Every Work in the batch was confirmed.
    pub open spec fn fully_acknowledged_spec(&self) -> bool {
        forall|i: int| 0 <= i < self.work_ids@.len() ==> holds_id(self.acknowledged@, (#[trigger] self.work_ids@[i])@)
    }

    /// Whether every Work in the batch was confirmed.
    pub fn fully_acknowledged(&self) -> (r: bool)
        ensures
            r == self.fully_acknowledged_spec(),
    {
        let mut i: usize = 0;
        while i < self.work_ids.len()
            invariant
                i <= self.work_ids@.len(),
                forall|j: int| 0 <= j < i ==> holds_id(self.acknowledged@, (#[trigger] self.work_ids@[j])@),
            decreases self.work_ids.len() - i,
        {
            if !holds_id_exec(&self.acknowledged, self.work_ids[i].as_str()) {
                return false;
            }
            i = i + 1;
        }
        true
    }
}

/// The four timers the queue arms.
#[derive(Clone, Copy, Debug, PartialEq, Eq)]
pub enum TimerKind {
    /// Start a delivery after the batch window.
    Delivery,
    /// Retry a delivery that did not land.
    Retry,
    /// Give up waiting for a playback receipt.
    Acknowledgement,
    /// Renew the notification claim.
    Lease,
}

/// A timer for the host to arm: after `delay_ms`, hand `kind` and `epoch`
/// back to [`AnnouncementQueue::timer_fired`].
#[derive(Clone, Copy, Debug, PartialEq, Eq)]
pub struct TimerRequest {
    /// Which timer.
    pub kind: TimerKind,
    /// Its epoch.
    pub epoch: u64,
    /// How long to wait, in milliseconds.
    pub delay_ms: u64,
}

/// A response for the host to create, then report through
/// [`AnnouncementQueue::delivered`].
#[derive(Clone, Debug, PartialEq, Eq)]
pub struct SpeakRequest {
    /// Where the response comes from: always an announcement, so the
    /// response is neither a model turn nor a correction.
    pub origin: ResponseOrigin,
    /// The delivery generation to report back.
    pub generation: u64,
    /// The batch's Work ids, to report back.
    pub work_ids: Vec<String>,
    /// The text: the results envelope, truncated to the budget.
    pub text: String,
    /// The correlation for the response.
    pub context: ResponseRequestContext,
    /// Whether to write the context item (not again on a retry whose item
    /// already landed).
    pub inject_context: bool,
    /// Whether to inject the results into the conversation rather than only
    /// speak them.
    pub into_context: bool,
}

/// What one step asks of the host.
#[derive(Clone, Debug, PartialEq, Eq)]
pub struct Effects {
    /// Timers to arm, in order.
    pub timers: Vec<TimerRequest>,
    /// Work whose notification was delivered.
    pub delivered: Vec<String>,
    /// Work whose claim to renew.
    pub renew: Vec<Vec<String>>,
    /// Work whose claim to release.
    pub release: Vec<Vec<String>>,
    /// A response to create.
    pub speak: Option<SpeakRequest>,
}

impl Effects {
    /// Nothing to do.
    pub fn none() -> (r: Self)
        ensures
            r.timers@.len() == 0,
            r.delivered@.len() == 0,
            r.renew@.len() == 0,
            r.release@.len() == 0,
            r.speak is None,
    {
        Effects { timers: Vec::new(), delivered: Vec::new(), renew: Vec::new(), release: Vec::new(), speak: None }
    }
}

/// `min(ceiling, base × 2^min(count − 1, 4))`, the multiplication saturating.
pub open spec fn backoff_spec(base: u64, ceiling: u64, count: u32) -> u64 {
    let exponent: nat = if count as int - 1 < RETRY_EXPONENT_CAP { (count - 1) as nat } else { RETRY_EXPONENT_CAP as nat };
    let factor: int = if exponent == 0 { 1 } else if exponent == 1 { 2 } else if exponent == 2 { 4 } else if exponent == 3 { 8 } else { 16 };
    let product: int = if base * factor > u64::MAX { u64::MAX as int } else { base * factor };
    if ceiling < product { ceiling } else { product as u64 }
}

/// The delay before retry number `count` (counting from one).
pub fn backoff_delay(base: u64, ceiling: u64, count: u32) -> (r: u64)
    requires
        count >= 1,
    ensures
        r == backoff_spec(base, ceiling, count),
{
    let exponent: u32 = if count - 1 < RETRY_EXPONENT_CAP { count - 1 } else { RETRY_EXPONENT_CAP };
    let factor: u64 = if exponent == 0 { 1 } else if exponent == 1 { 2 } else if exponent == 2 { 4 } else if exponent == 3 { 8 } else { 16 };
    let product: u64 = match base.checked_mul(factor) {
        Some(p) => p,
        None => u64::MAX,
    };
    if ceiling < product { ceiling } else { product }
}

/// The backoff never exceeds its ceiling, and never shrinks from one retry
/// to the next.
pub proof fn lemma_backoff_bounded_and_growing(base: u64, ceiling: u64, count: u32)
    requires
        1 <= count < u32::MAX,
    ensures
        backoff_spec(base, ceiling, count) <= ceiling,
        backoff_spec(base, ceiling, count) <= backoff_spec(base, ceiling, (count + 1) as u32),
{
    assert(base * 1 <= base * 2) by (nonlinear_arith);
    assert(base * 2 <= base * 4) by (nonlinear_arith);
    assert(base * 4 <= base * 8) by (nonlinear_arith);
    assert(base * 8 <= base * 16) by (nonlinear_arith);
}

/// The announcement queue of one voice session.
pub struct AnnouncementQueue {
    config: AnnouncementManagerConfig,
    pending: IndexMap<String, Announcement>,
    active: Option<Batch>,
    delivering: bool,
    delivery_generation: u64,
    delivery_epoch: u64,
    retry_epoch: u64,
    acknowledgement_epoch: u64,
    lease_epoch: u64,
    sequence: u64,
    retry_count: u32,
    delivery_armed: bool,
    retry_armed: bool,
    acknowledgement_armed: bool,
    lease_armed: bool,
    closed: bool,
}

/// Whether `a` is one of the queued announcements.
pub open spec fn queued(entries: Seq<(Seq<char>, Announcement)>, a: Announcement) -> bool {
    exists|j: int| 0 <= j < entries.len() && entries[j].1 == a
}

/// Entry `j` is the next announcement after sequence `last`: the queued one
/// with the smallest sequence above it.
pub open spec fn is_next(entries: Seq<(Seq<char>, Announcement)>, last: Option<u64>, j: int) -> bool {
    &&& 0 <= j < entries.len()
    &&& (last matches Some(l) ==> entries[j].1.sequence > l)
    &&& forall|k: int| 0 <= k < entries.len() && (last matches Some(l) ==> entries[k].1.sequence > l)
        ==> entries[j].1.sequence <= (#[trigger] entries[k].1).sequence
}

/// How many code points the results envelope for `anns` takes.
#[verifier::opaque]
pub open spec fn envelope_len(anns: Seq<Announcement>, header: Seq<char>) -> int {
    join_lines(work_results_lines(anns, header)).len() as int
}

/// Each of `anns` is queued, in strictly increasing sequence order.
#[verifier::opaque]
pub open spec fn batch_members(entries: Seq<(Seq<char>, Announcement)>, anns: Seq<Announcement>) -> bool {
    &&& forall|i: int| 0 <= i < anns.len() ==> queued(entries, #[trigger] anns[i])
    &&& forall|i: int, k: int| 0 <= i < k < anns.len() ==> (#[trigger] anns[i]).sequence < (#[trigger] anns[k]).sequence
}

/// Every queued announcement up to the last of `anns` is among them: the
/// batch starts at the earliest and skips none.
#[verifier::opaque]
pub open spec fn batch_prefix(entries: Seq<(Seq<char>, Announcement)>, anns: Seq<Announcement>) -> bool {
    forall|j: int| 0 <= j < entries.len() && (#[trigger] entries[j].1).sequence <= anns.last().sequence ==> exists|i: int|
        0 <= i < anns.len() && anns[i] == entries[j].1
}

/// `anns` is within both bounds, unless it is the first item alone.
pub open spec fn batch_bounds(config: AnnouncementManagerConfig, anns: Seq<Announcement>) -> bool {
    &&& anns.len() == 1 || anns.len() <= config.max_batch_items
    &&& anns.len() == 1 || envelope_len(anns, config.results_header@) <= config.result_context_max_chars
}

/// The next queued announcement after `anns`, if any, would break a bound.
#[verifier::opaque]
pub open spec fn batch_cut(entries: Seq<(Seq<char>, Announcement)>, config: AnnouncementManagerConfig, anns: Seq<Announcement>) -> bool {
    forall|j: int| is_next(entries, Some(anns.last().sequence), j) ==> (anns.len() >= config.max_batch_items
        || envelope_len(anns.push(#[trigger] entries[j].1), config.results_header@)
        > config.result_context_max_chars)
}

/// `b`'s other fields follow from its announcements, and nothing happened
/// to it yet.
pub open spec fn batch_fields(b: Batch) -> bool {
    let anns = b.announcements@;
    &&& b.work_ids@.len() == anns.len()
    &&& forall|i: int| 0 <= i < anns.len() ==> (#[trigger] b.work_ids@[i])@ == anns[i].work_id@
    &&& string_views(b.turn_ids@) == turn_ids_of(anns)
    &&& b.delivery_sequence == anns[0].sequence
    &&& !b.context_injected && !b.response_completed && !b.retry_requested
    &&& b.acknowledged@.len() == 0
}

/// `b` is the batch the queue presents next: a non-empty run of the queued
/// announcements in sequence order, starting from the earliest, cut at
/// [`AnnouncementManagerConfig::max_batch_items`] or where the formatted
/// envelope would exceed the character budget; the first item is taken
/// however large.
pub open spec fn batch_of(entries: Seq<(Seq<char>, Announcement)>, config: AnnouncementManagerConfig, b: Batch) -> bool {
    let anns = b.announcements@;
    &&& anns.len() >= 1
    &&& batch_members(entries, anns)
    &&& batch_prefix(entries, anns)
    &&& batch_bounds(config, anns)
    &&& batch_cut(entries, config, anns)
    &&& batch_fields(b)
}

fn clone_announcement(a: &Announcement) -> (r: Announcement)
    ensures
        r == *a,
{
    Announcement {
        work_id: a.work_id.clone(),
        event: a.event,
        objective: a.objective.clone(),
        result: a.result.clone(),
        error: a.error.clone(),
        turn_id: match &a.turn_id {
            Some(t) => Some(t.clone()),
            None => None,
        },
        completed_at: a.completed_at,
        sequence: a.sequence,
    }
}

/// The queued announcements are keyed by their Work ids, with distinct
/// sequence numbers no later than `seq`.
pub open spec fn pending_ok(p: Seq<(Seq<char>, Announcement)>, seq: u64) -> bool {
    &&& distinct_keys(p)
    &&& forall|j: int| 0 <= j < p.len() ==> (#[trigger] p[j]).0 == p[j].1.work_id@ && p[j].1.sequence <= seq
    &&& forall|i: int, j: int| 0 <= i < j < p.len() ==> (#[trigger] p[i]).1.sequence != (#[trigger] p[j]).1.sequence
}

proof fn lemma_remove_index_ok(p: Seq<(Seq<char>, Announcement)>, x: int, seq: u64)
    requires
        pending_ok(p, seq),
        0 <= x < p.len(),
    ensures
        pending_ok(p.remove(x), seq),
        forall|j: int| 0 <= j < p.remove(x).len() ==> (#[trigger] p.remove(x)[j]).0 != p[x].0,
{
    let r = p.remove(x);
    assert forall|j: int| 0 <= j < r.len() implies (#[trigger] r[j]).0 == r[j].1.work_id@ && r[j].1.sequence <= seq && r[j].0 != p[x].0 by {
        if j < x {
            assert(r[j] == p[j]);
        } else {
            assert(r[j] == p[j + 1]);
        }
    }
    assert forall|i: int, j: int| 0 <= i < j < r.len() implies #[trigger] r[i].0 != #[trigger] r[j].0 && r[i].1.sequence != r[j].1.sequence by {
        let a = if i < x { i } else { i + 1 };
        let b = if j < x { j } else { j + 1 };
        assert(r[i] == p[a] && r[j] == p[b]);
    }
}

/// Removing key `k` keeps the queue's invariant, and `k` is gone.
proof fn lemma_pending_remove(p: Seq<(Seq<char>, Announcement)>, k: Seq<char>, seq: u64)
    requires
        pending_ok(p, seq),
    ensures
        pending_ok(seq_remove_entry(p, k), seq),
        !has_key(seq_remove_entry(p, k), k),
{
    if has_key(p, k) {
        let x = crate::strmap::key_index(p, k);
        lemma_key_index(p, x);
        lemma_remove_index_ok(p, x, seq);
    }
}

impl AnnouncementQueue {
    /// The queued announcements, keyed by Work id, in insertion order.
    pub closed spec fn pending_spec(&self) -> Seq<(Seq<char>, Announcement)> {
        announcement_entries(self.pending)
    }

    /// The batch being presented.
    pub closed spec fn active_spec(&self) -> Option<Batch> {
        self.active
    }

    /// The configuration.
    pub closed spec fn config_spec(&self) -> AnnouncementManagerConfig {
        self.config
    }

    /// How many retries the active batch has had.
    pub closed spec fn retry_count_spec(&self) -> u32 {
        self.retry_count
    }

    /// The last sequence number given out.
    pub closed spec fn sequence_spec(&self) -> u64 {
        self.sequence
    }

    /// The current delivery generation.
    pub closed spec fn generation_spec(&self) -> u64 {
        self.delivery_generation
    }

    /// The live epoch of timer `kind`.
    pub closed spec fn epoch_spec(&self, kind: TimerKind) -> u64 {
        match kind {
            TimerKind::Delivery => self.delivery_epoch,
            TimerKind::Retry => self.retry_epoch,
            TimerKind::Acknowledgement => self.acknowledgement_epoch,
            TimerKind::Lease => self.lease_epoch,
        }
    }

    /// Whether timer `kind` is armed.
    pub closed spec fn armed_spec(&self, kind: TimerKind) -> bool {
        match kind {
            TimerKind::Delivery => self.delivery_armed,
            TimerKind::Retry => self.retry_armed,
            TimerKind::Acknowledgement => self.acknowledgement_armed,
            TimerKind::Lease => self.lease_armed,
        }
    }

    /// Whether a delivery attempt is in flight.
    pub closed spec fn delivering_spec(&self) -> bool {
        self.delivering
    }

    /// Whether the queue was closed.
    pub closed spec fn closed_spec(&self) -> bool {
        self.closed
    }

    /// The queue's invariant: each announcement is keyed by its Work id;
    /// sequence numbers are distinct and no later than the last one given
    /// out; the retry count is within its bound; a closed queue presents
    /// nothing; an active batch still waits for a confirmation.
    pub closed spec fn wf(&self) -> bool {
        &&& self.base_wf()
        &&& self.active matches Some(b) ==> !b.fully_acknowledged_spec()
    }

    closed spec fn base_wf(&self) -> bool {
        &&& pending_ok(self.pending_spec(), self.sequence)
        &&& self.retry_count <= self.config.max_retry_attempts
        &&& self.closed ==> self.active is None
    }

    /// An empty, open queue.
    pub fn new(config: AnnouncementManagerConfig) -> (r: Self)
        ensures
            r.wf(),
            r.pending_spec().len() == 0,
            r.active_spec() is None,
            r.config_spec() == config,
            r.sequence_spec() == 0,
            !r.closed_spec(),
    {
        AnnouncementQueue {
            config,
            pending: announcement_map_new(),
            active: None,
            delivering: false,
            delivery_generation: 0,
            delivery_epoch: 0,
            retry_epoch: 0,
            acknowledgement_epoch: 0,
            lease_epoch: 0,
            sequence: 0,
            retry_count: 0,
            delivery_armed: false,
            retry_armed: false,
            acknowledgement_armed: false,
            lease_armed: false,
            closed: false,
        }
    }

    /// Whether `work_id` is queued.
    pub fn has(&self, work_id: &str) -> (r: bool)
        ensures
            r == has_key(self.pending_spec(), work_id@),
    {
        match announcement_map_index_of(&self.pending, work_id) {
            Some(_) => true,
            None => false,
        }
    }

    /// How many announcements were ever queued: each takes the next
    /// sequence number.
    pub fn sequence(&self) -> (r: u64)
        ensures
            r == self.sequence_spec(),
    {
        self.sequence
    }

    fn arm(&mut self, kind: TimerKind, delay_ms: u64, fx: &mut Effects)
        ensures
            final(self).epoch_spec(kind) == next_generation(old(self).epoch_spec(kind)),
            forall|k: TimerKind| k != kind ==> final(self).epoch_spec(k) == old(self).epoch_spec(k),
            final(fx).timers@ == old(fx).timers@.push(TimerRequest { kind, epoch: final(self).epoch_spec(kind), delay_ms }),
            final(fx).delivered@ == old(fx).delivered@,
            final(fx).renew@ == old(fx).renew@,
            final(fx).release@ == old(fx).release@,
            final(fx).speak == old(fx).speak,
            final(self).pending_spec() == old(self).pending_spec(),
            final(self).active_spec() == old(self).active_spec(),
            final(self).config_spec() == old(self).config_spec(),
            final(self).retry_count_spec() == old(self).retry_count_spec(),
            final(self).sequence_spec() == old(self).sequence_spec(),
            final(self).generation_spec() == old(self).generation_spec(),
            final(self).delivering_spec() == old(self).delivering_spec(),
            final(self).closed_spec() == old(self).closed_spec(),
            final(self).delivery_armed == old(self).delivery_armed,
            final(self).retry_armed == old(self).retry_armed,
            final(self).acknowledgement_armed == old(self).acknowledgement_armed,
            final(self).lease_armed == old(self).lease_armed,
    {
        let epoch = match kind {
            TimerKind::Delivery => {
                self.delivery_epoch = bump(self.delivery_epoch);
                self.delivery_epoch
            },
            TimerKind::Retry => {
                self.retry_epoch = bump(self.retry_epoch);
                self.retry_epoch
            },
            TimerKind::Acknowledgement => {
                self.acknowledgement_epoch = bump(self.acknowledgement_epoch);
                self.acknowledgement_epoch
            },
            TimerKind::Lease => {
                self.lease_epoch = bump(self.lease_epoch);
                self.lease_epoch
            },
        };
        fx.timers.push(TimerRequest { kind, epoch, delay_ms });
    }

    fn cancel_batch_timers(&mut self)
        ensures
            !final(self).retry_armed && !final(self).acknowledgement_armed && !final(self).lease_armed,
            final(self).epoch_spec(TimerKind::Retry) == next_generation(old(self).epoch_spec(TimerKind::Retry)),
            final(self).epoch_spec(TimerKind::Acknowledgement) == next_generation(old(self).epoch_spec(TimerKind::Acknowledgement)),
            final(self).epoch_spec(TimerKind::Lease) == next_generation(old(self).epoch_spec(TimerKind::Lease)),
            final(self).epoch_spec(TimerKind::Delivery) == old(self).epoch_spec(TimerKind::Delivery),
            final(self).pending_spec() == old(self).pending_spec(),
            final(self).active_spec() == old(self).active_spec(),
            final(self).config_spec() == old(self).config_spec(),
            final(self).retry_count_spec() == old(self).retry_count_spec(),
            final(self).sequence_spec() == old(self).sequence_spec(),
            final(self).generation_spec() == old(self).generation_spec(),
            final(self).delivering_spec() == old(self).delivering_spec(),
            final(self).closed_spec() == old(self).closed_spec(),
            final(self).delivery_armed == old(self).delivery_armed,
    {
        self.retry_armed = false;
        self.acknowledgement_armed = false;
        self.lease_armed = false;
        self.retry_epoch = bump(self.retry_epoch);
        self.acknowledgement_epoch = bump(self.acknowledgement_epoch);
        self.lease_epoch = bump(self.lease_epoch);
    }

    fn schedule_delivery(&mut self, delay_ms: u64, fx: &mut Effects)
        requires
            old(self).wf(),
        ensures
            final(self).wf(),
            final(self).pending_spec() == old(self).pending_spec(),
            final(self).active_spec() == old(self).active_spec(),
            final(self).config_spec() == old(self).config_spec(),
            final(self).sequence_spec() == old(self).sequence_spec(),
            final(self).generation_spec() == old(self).generation_spec(),
            final(self).delivering_spec() == old(self).delivering_spec(),
            final(self).closed_spec() == old(self).closed_spec(),
            final(self).retry_count_spec() == old(self).retry_count_spec(),
            final(self).retry_armed == old(self).retry_armed,
            final(self).acknowledgement_armed == old(self).acknowledgement_armed,
            final(self).lease_armed == old(self).lease_armed,
            final(fx).delivered@ == old(fx).delivered@,
            final(fx).renew@ == old(fx).renew@,
            final(fx).release@ == old(fx).release@,
            final(fx).speak == old(fx).speak,
            ({
                let skip = old(self).closed || old(self).delivery_armed || old(self).retry_armed || old(self).active is Some
                    || old(self).pending_spec().len() == 0;
                &&& skip ==> final(fx).timers@ == old(fx).timers@ && final(self).epoch_spec(TimerKind::Delivery)
                    == old(self).epoch_spec(TimerKind::Delivery)
                &&& !skip ==> final(fx).timers@ == old(fx).timers@.push(TimerRequest {
                    kind: TimerKind::Delivery,
                    epoch: final(self).epoch_spec(TimerKind::Delivery),
                    delay_ms,
                })
            }),
            (!old(self).closed && !old(self).retry_armed && old(self).active is None && old(self).pending_spec().len() > 0)
                ==> final(self).delivery_armed,
            old(self).delivery_armed ==> final(self).delivery_armed,
    {
        if self.closed || self.delivery_armed || self.retry_armed || self.active.is_some()
            || announcement_map_len(&self.pending) == 0 {
            return;
        }
        self.delivery_armed = true;
        self.arm(TimerKind::Delivery, delay_ms, fx);
    }

    fn abandon_now(&mut self, fx: &mut Effects)
        requires
            old(self).wf(),
        ensures
            final(self).wf(),
            final(self).active_spec() is None,
            final(self).config_spec() == old(self).config_spec(),
            final(self).sequence_spec() == old(self).sequence_spec(),
            final(self).generation_spec() == old(self).generation_spec(),
            final(self).closed_spec() == old(self).closed_spec(),
            final(self).delivering_spec() == old(self).delivering_spec(),
            final(self).retry_count_spec() == old(self).retry_count_spec(),
            final(fx).delivered@ == old(fx).delivered@,
            final(fx).renew@ == old(fx).renew@,
            final(fx).speak == old(fx).speak,
            old(self).active_spec() matches Some(b) ==> ({
                &&& b.work_ids@.len() > 0 ==> final(fx).release@.len() == old(fx).release@.len() + 1
                    && final(fx).release@.drop_last() == old(fx).release@ && final(fx).release@.last()@ == b.work_ids@
                &&& b.work_ids@.len() == 0 ==> final(fx).release@ == old(fx).release@
                &&& forall|i: int| 0 <= i < b.work_ids@.len() ==> !has_key(final(self).pending_spec(), (#[trigger] b.work_ids@[i])@)
            }),
            old(self).active_spec() is None ==> final(fx).release@ == old(fx).release@ && final(self).pending_spec()
                == old(self).pending_spec(),
            old(self).active is Some ==> !final(self).retry_armed && !final(self).acknowledgement_armed && !final(self).lease_armed,
            (old(self).active is Some && !old(self).closed && !old(self).delivering && final(self).pending_spec().len() > 0)
                ==> final(self).delivery_armed,
    {
        let batch = match self.active.take() {
            Some(b) => b,
            None => {
                return;
            },
        };
        let mut i: usize = 0;
        while i < batch.work_ids.len()
            invariant
                self.wf(),
                i <= batch.work_ids@.len(),
                self.active is None,
                self.config == old(self).config,
                self.sequence == old(self).sequence,
                self.delivery_generation == old(self).delivery_generation,
                self.closed == old(self).closed,
                self.delivering == old(self).delivering,
                self.retry_count == old(self).retry_count,
                forall|k: int| 0 <= k < i ==> !has_key(self.pending_spec(), (#[trigger] batch.work_ids@[k])@),
            decreases batch.work_ids.len() - i,
        {
            let ghost before = self.pending_spec();
            announcement_map_shift_remove(&mut self.pending, batch.work_ids[i].as_str());
            proof {
                lemma_pending_remove(before, batch.work_ids@[i as int]@, self.sequence);
            }
            i = i + 1;
        }
        self.cancel_batch_timers();
        if batch.work_ids.len() > 0 {
            let ghost before = fx.release@;
            fx.release.push(clone_strings(&batch.work_ids));
            assert(fx.release@.drop_last() =~= before);
        }
        if !self.delivering && announcement_map_len(&self.pending) > 0 {
            self.schedule_delivery(0, fx);
        }
    }
}

/// The non-empty turn ids of `anns`, in order.
pub open spec fn turn_ids_of(anns: Seq<Announcement>) -> Seq<Seq<char>>
    decreases anns.len(),
{
    if anns.len() == 0 {
        Seq::empty()
    } else {
        let rest = turn_ids_of(anns.drop_last());
        match anns.last().turn_id {
            Some(t) => if t@.len() > 0 {
                rest.push(t@)
            } else {
                rest
            },
            None => rest,
        }
    }
}

/// The character sequences of `s`.
pub open spec fn string_views(s: Seq<String>) -> Seq<Seq<char>> {
    s.map_values(|x: String| x@)
}

/// `s` holds the queued announcements, each once, in increasing sequence
/// order.
#[verifier::opaque]
pub open spec fn sorted_by_sequence(entries: Seq<(Seq<char>, Announcement)>, s: Seq<Announcement>) -> bool {
    &&& s.len() == entries.len()
    &&& increasing(s)
    &&& covers(entries, s, entries.len() as int)
    &&& drawn_from(entries, s, entries.len() as int)
}

fn clone_announcements(v: &Vec<Announcement>) -> (r: Vec<Announcement>)
    ensures
        r@ == v@,
{
    let mut r: Vec<Announcement> = Vec::new();
    let mut i: usize = 0;
    while i < v.len()
        invariant
            i <= v@.len(),
            r@ == v@.take(i as int),
        decreases v.len() - i,
    {
        r.push(clone_announcement(&v[i]));
        proof {
            assert(v@.take(i + 1) =~= v@.take(i as int).push(v@[i as int]));
        }
        i = i + 1;
    }
    proof {
        assert(v@.take(v@.len() as int) =~= v@);
    }
    r
}

fn turn_ids_exec(anns: &Vec<Announcement>) -> (r: Vec<String>)
    ensures
        string_views(r@) == turn_ids_of(anns@),
{
    let mut r: Vec<String> = Vec::new();
    let mut i: usize = 0;
    while i < anns.len()
        invariant
            i <= anns@.len(),
            string_views(r@) == turn_ids_of(anns@.take(i as int)),
        decreases anns.len() - i,
    {
        proof {
            assert(anns@.take(i + 1).drop_last() =~= anns@.take(i as int));
        }
        match &anns[i].turn_id {
            Some(t) => {
                if t.as_str().unicode_len() > 0 {
                    r.push(t.clone());
                    assert(string_views(r@) =~= turn_ids_of(anns@.take(i + 1)));
                }
            },
            None => {},
        }
        i = i + 1;
    }
    proof {
        assert(anns@.take(anns@.len() as int) =~= anns@);
    }
    r
}

fn work_ids_exec(anns: &Vec<Announcement>) -> (r: Vec<String>)
    ensures
        r@.len() == anns@.len(),
        forall|i: int| 0 <= i < anns@.len() ==> (#[trigger] r@[i])@ == anns@[i].work_id@,
{
    let mut r: Vec<String> = Vec::new();
    let mut i: usize = 0;
    while i < anns.len()
        invariant
            i <= anns@.len(),
            r@.len() == i,
            forall|k: int| 0 <= k < i ==> (#[trigger] r@[k])@ == anns@[k].work_id@,
        decreases anns.len() - i,
    {
        r.push(anns[i].work_id.clone());
        i = i + 1;
    }
    r
}

/// Each of the first `i` entries' announcements is in `out`.
pub open spec fn covers(entries: Seq<(Seq<char>, Announcement)>, out: Seq<Announcement>, i: int) -> bool {
    forall|j: int| 0 <= j < i ==> exists|m: int| 0 <= m < out.len() && #[trigger] out[m] == (#[trigger] entries[j]).1
}

/// Each element of `out` is one of the first `i` entries' announcements.
pub open spec fn drawn_from(entries: Seq<(Seq<char>, Announcement)>, out: Seq<Announcement>, i: int) -> bool {
    forall|m: int| 0 <= m < out.len() ==> exists|j: int| 0 <= j < i && (#[trigger] entries[j]).1 == #[trigger] out[m]
}

/// Inserting `a` at `p` keeps every earlier witness.
proof fn lemma_insert_keeps(out: Seq<Announcement>, p: int, a: Announcement, x: Announcement)
    requires
        0 <= p <= out.len(),
        exists|m: int| 0 <= m < out.len() && out[m] == x,
    ensures
        exists|m: int| 0 <= m < out.insert(p, a).len() && out.insert(p, a)[m] == x,
{
    let m = choose|m: int| 0 <= m < out.len() && out[m] == x;
    if m < p {
        assert(out.insert(p, a)[m] == x);
    } else {
        assert(out.insert(p, a)[m + 1] == x);
    }
}

/// Strictly increasing by sequence number.
pub open spec fn increasing(s: Seq<Announcement>) -> bool {
    forall|m: int, k: int| 0 <= m < k < s.len() ==> (#[trigger] s[m]).sequence < (#[trigger] s[k]).sequence
}

fn insert_by_sequence(out: &mut Vec<Announcement>, a: Announcement) -> (p: usize)
    requires
        increasing(old(out)@),
        forall|m: int| 0 <= m < old(out)@.len() ==> (#[trigger] old(out)@[m]).sequence != a.sequence,
    ensures
        p <= old(out)@.len(),
        final(out)@ == old(out)@.insert(p as int, a),
        increasing(final(out)@),
{
    let mut p: usize = 0;
    while p < out.len() && out[p].sequence < a.sequence
        invariant
            p <= out@.len(),
            forall|k: int| 0 <= k < p ==> (#[trigger] out@[k]).sequence < a.sequence,
        decreases out.len() - p,
    {
        p = p + 1;
    }
    let ghost old_out = out@;
    proof {
        assert forall|k: int| p <= k < old_out.len() implies (#[trigger] old_out[k]).sequence > a.sequence by {
            assert(old_out[p as int].sequence <= old_out[k].sequence);
        }
    }
    out.insert(p, a);
    proof {
        assert forall|m: int, k: int| 0 <= m < k < out@.len() implies (#[trigger] out@[m]).sequence < (#[trigger] out@[k]).sequence by {
            if m < p && k < p {
                assert(out@[m] == old_out[m] && out@[k] == old_out[k]);
            } else if m < p && k == p {
                assert(out@[m] == old_out[m]);
            } else if m < p {
                assert(out@[m] == old_out[m] && out@[k] == old_out[k - 1]);
            } else if m == p {
                assert(out@[k] == old_out[k - 1]);
            } else {
                assert(out@[m] == old_out[m - 1] && out@[k] == old_out[k - 1]);
            }
        }
    }
    p
}

/// After inserting entry `i`'s announcement, every entry up to `i` has a
/// place in `out`.
proof fn lemma_insert_covers(entries: Seq<(Seq<char>, Announcement)>, old_out: Seq<Announcement>, p: int, i: int)
    requires
        0 <= i < entries.len(),
        0 <= p <= old_out.len(),
        covers(entries, old_out, i),
    ensures
        covers(entries, old_out.insert(p, entries[i].1), i + 1),
{
    let a = entries[i].1;
    let out = old_out.insert(p, a);
    assert forall|j: int| 0 <= j < i + 1 implies exists|m: int| 0 <= m < out.len() && #[trigger] out[m] == (#[trigger] entries[j]).1 by {
        if j < i {
            lemma_insert_keeps(old_out, p, a, entries[j].1);
        } else {
            assert(out[p] == entries[j].1);
        }
    }
}

/// After inserting entry `i`'s announcement, every element of `out` is one
/// of the entries up to `i`.
proof fn lemma_insert_drawn(entries: Seq<(Seq<char>, Announcement)>, old_out: Seq<Announcement>, p: int, i: int)
    requires
        0 <= i < entries.len(),
        0 <= p <= old_out.len(),
        drawn_from(entries, old_out, i),
    ensures
        drawn_from(entries, old_out.insert(p, entries[i].1), i + 1),
{
    let a = entries[i].1;
    let out = old_out.insert(p, a);
    assert forall|m: int| 0 <= m < out.len() implies exists|j: int| 0 <= j < i + 1 && (#[trigger] entries[j]).1 == #[trigger] out[m] by {
        if m < p {
            assert(out[m] == old_out[m]);
            let j = choose|j: int| 0 <= j < i && (#[trigger] entries[j]).1 == old_out[m];
            assert(entries[j].1 == out[m]);
        } else if m == p {
            assert(entries[i].1 == out[m]);
        } else {
            assert(out[m] == old_out[m - 1]);
            let j = choose|j: int| 0 <= j < i && (#[trigger] entries[j]).1 == old_out[m - 1];
            assert(entries[j].1 == out[m]);
        }
    }
}

/// No two queued announcements share a sequence number.
pub open spec fn distinct_sequences(p: Seq<(Seq<char>, Announcement)>) -> bool {
    forall|i: int, j: int| 0 <= i < j < p.len() ==> (#[trigger] p[i]).1.sequence != (#[trigger] p[j]).1.sequence
}

/// Every element of `out` comes from an entry before `i`, so none shares
/// entry `i`'s sequence number.
proof fn lemma_fresh_sequence(entries: Seq<(Seq<char>, Announcement)>, out: Seq<Announcement>, i: int)
    requires
        distinct_sequences(entries),
        0 <= i < entries.len(),
        drawn_from(entries, out, i),
    ensures
        forall|m: int| 0 <= m < out.len() ==> (#[trigger] out[m]).sequence != entries[i].1.sequence,
{
    assert forall|m: int| 0 <= m < out.len() implies (#[trigger] out[m]).sequence != entries[i].1.sequence by {
        let j = choose|j: int| 0 <= j < i && (#[trigger] entries[j]).1 == out[m];
        assert(entries[j].1.sequence != entries[i].1.sequence);
    }
}

impl AnnouncementQueue {
    fn sorted_pending(&self) -> (r: Vec<Announcement>)
        requires
            pending_ok(self.pending_spec(), self.sequence),
        ensures
            sorted_by_sequence(self.pending_spec(), r@),
            r@.len() == self.pending_spec().len(),
    {
        let ghost entries = self.pending_spec();
        assert(distinct_sequences(entries));
        let n = announcement_map_len(&self.pending);
        let mut out: Vec<Announcement> = Vec::new();
        let mut i: usize = 0;
        while i < n
            invariant
                entries == self.pending_spec(),
                distinct_sequences(entries),
                n == entries.len(),
                i <= n,
                out@.len() == i,
                increasing(out@),
                covers(entries, out@, i as int),
                drawn_from(entries, out@, i as int),
            decreases n - i,
        {
            let a = clone_announcement(announcement_map_value_at(&self.pending, i));
            proof {
                lemma_fresh_sequence(entries, out@, i as int);
            }
            let ghost old_out = out@;
            let p = insert_by_sequence(&mut out, a);
            proof {
                lemma_insert_covers(entries, old_out, p as int, i as int);
                lemma_insert_drawn(entries, old_out, p as int, i as int);
            }
            i = i + 1;
        }
        proof {
            reveal(sorted_by_sequence);
        }
        out
    }
}

proof fn lemma_sorted_position(entries: Seq<(Seq<char>, Announcement)>, sorted: Seq<Announcement>, j: int) -> (m: int)
    requires
        sorted_by_sequence(entries, sorted),
        0 <= j < entries.len(),
    ensures
        0 <= m < sorted.len(),
        sorted[m] == entries[j].1,
{
    reveal(sorted_by_sequence);
    choose|m: int| 0 <= m < sorted.len() && #[trigger] sorted[m] == (#[trigger] entries[j]).1
}

proof fn lemma_sorted_source(entries: Seq<(Seq<char>, Announcement)>, sorted: Seq<Announcement>, m: int) -> (j: int)
    requires
        sorted_by_sequence(entries, sorted),
        0 <= m < sorted.len(),
    ensures
        0 <= j < entries.len(),
        entries[j].1 == sorted[m],
{
    reveal(sorted_by_sequence);
    choose|j: int| 0 <= j < entries.len() && (#[trigger] entries[j]).1 == #[trigger] sorted[m]
}

proof fn lemma_sorted_order(entries: Seq<(Seq<char>, Announcement)>, sorted: Seq<Announcement>, a: int, b: int)
    requires
        sorted_by_sequence(entries, sorted),
        0 <= a < b < sorted.len(),
    ensures
        sorted[a].sequence < sorted[b].sequence,
{
    reveal(sorted_by_sequence);
}

proof fn lemma_sorted_members(entries: Seq<(Seq<char>, Announcement)>, sorted: Seq<Announcement>, k: int)
    requires
        sorted_by_sequence(entries, sorted),
        1 <= k <= sorted.len(),
    ensures
        batch_members(entries, sorted.take(k)),
{
    reveal(batch_members);
    let anns = sorted.take(k);
    assert forall|i: int| 0 <= i < anns.len() implies queued(entries, #[trigger] anns[i]) by {
        assert(anns[i] == sorted[i]);
        let j = lemma_sorted_source(entries, sorted, i);
    }
    assert forall|i: int, m: int| 0 <= i < m < anns.len() implies (#[trigger] anns[i]).sequence < (#[trigger] anns[m]).sequence by {
        assert(anns[i] == sorted[i] && anns[m] == sorted[m]);
        lemma_sorted_order(entries, sorted, i, m);
    }
}

proof fn lemma_sorted_prefix(entries: Seq<(Seq<char>, Announcement)>, sorted: Seq<Announcement>, k: int)
    requires
        sorted_by_sequence(entries, sorted),
        1 <= k <= sorted.len(),
    ensures
        batch_prefix(entries, sorted.take(k)),
{
    reveal(batch_prefix);
    let anns = sorted.take(k);
    assert(anns.last() == sorted[k - 1]);
    assert forall|j: int| 0 <= j < entries.len() && (#[trigger] entries[j].1).sequence <= anns.last().sequence implies exists|i: int|
        0 <= i < anns.len() && anns[i] == entries[j].1 by {
        let m = lemma_sorted_position(entries, sorted, j);
        if m >= k {
            lemma_sorted_order(entries, sorted, k - 1, m);
        }
        assert(anns[m] == entries[j].1);
    }
}

proof fn lemma_sorted_cut(entries: Seq<(Seq<char>, Announcement)>, config: AnnouncementManagerConfig, sorted: Seq<Announcement>, k: int)
    requires
        sorted_by_sequence(entries, sorted),
        1 <= k <= sorted.len(),
        k < sorted.len() ==> (k >= config.max_batch_items || envelope_len(sorted.take(k).push(sorted[k]), config.results_header@)
            > config.result_context_max_chars),
    ensures
        batch_cut(entries, config, sorted.take(k)),
{
    reveal(batch_cut);
    let anns = sorted.take(k);
    let last = anns.last().sequence;
    assert(anns.last() == sorted[k - 1]);
    assert forall|j: int| is_next(entries, Some(last), j) implies (anns.len() >= config.max_batch_items
        || envelope_len(anns.push(#[trigger] entries[j].1), config.results_header@) > config.result_context_max_chars) by {
        let m = lemma_sorted_position(entries, sorted, j);
        if m < k - 1 {
            lemma_sorted_order(entries, sorted, m, k - 1);
        }
        assert(m >= k);
        let j2 = lemma_sorted_source(entries, sorted, k);
        lemma_sorted_order(entries, sorted, k - 1, k);
        assert(entries[j].1.sequence <= entries[j2].1.sequence);
        if m > k {
            lemma_sorted_order(entries, sorted, k, m);
        }
        assert(m == k);
    }
}

/// The first `k` sorted announcements, cut where the loop that took them
/// stopped, make the batch the queue presents next.
proof fn lemma_batch_from_sorted(
    entries: Seq<(Seq<char>, Announcement)>,
    config: AnnouncementManagerConfig,
    sorted: Seq<Announcement>,
    k: int,
    b: Batch,
)
    requires
        sorted_by_sequence(entries, sorted),
        1 <= k <= sorted.len(),
        b.announcements@ == sorted.take(k),
        k >= 2 ==> k <= config.max_batch_items,
        k >= 2 ==> envelope_len(sorted.take(k), config.results_header@) <= config.result_context_max_chars,
        k < sorted.len() ==> (k >= config.max_batch_items || envelope_len(sorted.take(k).push(sorted[k]), config.results_header@) > config.result_context_max_chars),
        b.work_ids@.len() == k,
        forall|i: int| 0 <= i < k ==> (#[trigger] b.work_ids@[i])@ == b.announcements@[i].work_id@,
        string_views(b.turn_ids@) == turn_ids_of(b.announcements@),
        b.delivery_sequence == b.announcements@[0].sequence,
        !b.context_injected && !b.response_completed && !b.retry_requested,
        b.acknowledged@.len() == 0,
    ensures
        batch_of(entries, config, b),
{
    lemma_sorted_members(entries, sorted, k);
    lemma_sorted_prefix(entries, sorted, k);
    lemma_sorted_cut(entries, config, sorted, k);
}

impl AnnouncementQueue {
    fn create_batch(&self) -> (r: Option<Batch>)
        requires
            pending_ok(self.pending_spec(), self.sequence),
        ensures
            r is None <==> self.pending_spec().len() == 0,
            r matches Some(b) ==> batch_of(self.pending_spec(), self.config, b),
    {
        let sorted = self.sorted_pending();
        if sorted.len() == 0 {
            return None;
        }
        let max_items = self.config.max_batch_items;
        let max_chars = self.config.result_context_max_chars;
        let header = self.config.results_header.as_str();
        let mut queued: Vec<Announcement> = Vec::new();
        let mut i: usize = 0;
        while i < sorted.len()
            invariant
                sorted@.len() > 0,
                i <= sorted@.len(),
                queued@ == sorted@.take(i as int),
                max_items == self.config.max_batch_items,
                max_chars == self.config.result_context_max_chars,
                header@ == self.config.results_header@,
                i >= 2 ==> i <= max_items,
                i >= 2 ==> envelope_len(queued@, header@) <= max_chars,
            ensures
                1 <= i <= sorted@.len(),
                queued@ == sorted@.take(i as int),
                i >= 2 ==> i <= max_items,
                i >= 2 ==> envelope_len(queued@, header@) <= max_chars,
                i < sorted@.len() ==> (i >= max_items || envelope_len(sorted@.take(i as int).push(sorted@[i as int]), header@) > max_chars),
            decreases sorted.len() - i,
        {
            queued.push(clone_announcement(&sorted[i]));
            proof {
                assert(queued@ =~= sorted@.take(i + 1));
                assert(sorted@.take(i + 1) =~= sorted@.take(i as int).push(sorted@[i as int]));
            }
            let text = format_work_results(queued.as_slice(), header);
            proof {
                reveal(envelope_len);
            }
            if i > 0 && (i >= max_items || code_point_len(text.as_str()) > max_chars) {
                queued.pop();
                proof {
                    assert(queued@ =~= sorted@.take(i as int));
                }
                break;
            }
            i = i + 1;
        }
        let work_ids = work_ids_exec(&queued);
        let turn_ids = turn_ids_exec(&queued);
        let delivery_sequence = queued[0].sequence;
        let b = Batch {
            announcements: queued,
            work_ids,
            turn_ids,
            delivery_sequence,
            context_injected: false,
            response_completed: false,
            retry_requested: false,
            acknowledged: Vec::new(),
        };
        proof {
            lemma_batch_from_sorted(self.pending_spec(), self.config, sorted@, i as int, b);
        }
        Some(b)
    }
}

/// The queue's invariant survives binding `k` to `a` when `a` is keyed by
/// `k` and carries the next sequence number.
proof fn lemma_pending_insert(p: Seq<(Seq<char>, Announcement)>, k: Seq<char>, a: Announcement, seq: u64)
    requires
        pending_ok(p, seq),
        a.work_id@ == k,
        seq < u64::MAX,
        a.sequence == seq + 1,
    ensures
        pending_ok(seq_insert_entry(p, k, a), (seq + 1) as u64),
{
    let r = seq_insert_entry(p, k, a);
    if has_key(p, k) {
        let x = crate::strmap::key_index(p, k);
        assert(0 <= x < p.len() && p[x].0 == k);
        assert forall|i: int, j: int| 0 <= i < j < r.len() implies #[trigger] r[i].0 != #[trigger] r[j].0 by {
            assert(p[i].0 != p[j].0);
        }
        assert forall|j: int| 0 <= j < r.len() implies (#[trigger] r[j]).0 == r[j].1.work_id@ && r[j].1.sequence <= seq + 1 by {
            if j != x {
                assert(r[j] == p[j]);
            }
        }
        assert forall|i: int, j: int| 0 <= i < j < r.len() implies (#[trigger] r[i]).1.sequence != (#[trigger] r[j]).1.sequence by {
            if i != x && j != x {
                assert(r[i] == p[i] && r[j] == p[j]);
            } else if i == x {
                assert(r[j] == p[j]);
            } else {
                assert(r[i] == p[i]);
            }
        }
    } else {
        assert forall|i: int, j: int| 0 <= i < j < r.len() implies #[trigger] r[i].0 != #[trigger] r[j].0 by {
            if j == p.len() {
                assert(r[i] == p[i]);
            } else {
                assert(r[i] == p[i] && r[j] == p[j]);
            }
        }
        assert forall|j: int| 0 <= j < r.len() implies (#[trigger] r[j]).0 == r[j].1.work_id@ && r[j].1.sequence <= seq + 1 by {
            if j < p.len() {
                assert(r[j] == p[j]);
            }
        }
        assert forall|i: int, j: int| 0 <= i < j < r.len() implies (#[trigger] r[i]).1.sequence != (#[trigger] r[j]).1.sequence by {
            if j < p.len() {
                assert(r[i] == p[i] && r[j] == p[j]);
            } else {
                assert(r[i] == p[i]);
            }
        }
    }
}

/// The acknowledgements of `b` after Work `id` is confirmed or removed:
/// `id` is added when the batch holds it and it is not there yet.
pub open spec fn acknowledged_after(b: Batch, id: Seq<char>) -> Seq<Seq<char>> {
    if holds_id(b.work_ids@, id) && !holds_id(b.acknowledged@, id) {
        string_views(b.acknowledged@).push(id)
    } else {
        string_views(b.acknowledged@)
    }
}

/// `c` is `b` with other acknowledgements.
pub open spec fn same_batch(b: Batch, c: Batch) -> bool {
    &&& c.announcements@ == b.announcements@
    &&& c.work_ids@ == b.work_ids@
    &&& c.turn_ids@ == b.turn_ids@
    &&& c.delivery_sequence == b.delivery_sequence
    &&& c.context_injected == b.context_injected
    &&& c.response_completed == b.response_completed
    &&& c.retry_requested == b.retry_requested
}

/// Whether `a` and `b` hold the same Work ids, in order.
pub open spec fn same_ids(a: Seq<String>, b: Seq<String>) -> bool {
    string_views(a) == string_views(b)
}

fn same_ids_exec(a: &Vec<String>, b: &[String]) -> (r: bool)
    ensures
        r == same_ids(a@, b@),
{
    if a.len() != b.len() {
        proof {
            assert(string_views(a@).len() != string_views(b@).len());
        }
        return false;
    }
    let mut i: usize = 0;
    while i < a.len()
        invariant
            a@.len() == b@.len(),
            i <= a@.len(),
            forall|k: int| 0 <= k < i ==> (#[trigger] a@[k])@ == b@[k]@,
        decreases a.len() - i,
    {
        if !str_eq(a[i].as_str(), b[i].as_str()) {
            proof {
                assert(string_views(a@)[i as int] != string_views(b@)[i as int]);
            }
            return false;
        }
        i = i + 1;
    }
    proof {
        assert(string_views(a@) =~= string_views(b@));
    }
    true
}

impl AnnouncementQueue {
    /// Queue an announcement, numbering it after every earlier one. A Work
    /// already queued is replaced in place.
    pub fn queue(&mut self, announcement: Announcement) -> (fx: Effects)
        requires
            old(self).wf(),
            old(self).sequence_spec() < u64::MAX,
        ensures
            final(self).wf(),
            final(self).sequence_spec() == old(self).sequence_spec() + 1,
            final(self).pending_spec() == seq_insert_entry(
                old(self).pending_spec(),
                announcement.work_id@,
                Announcement { sequence: final(self).sequence_spec(), ..announcement },
            ),
            final(self).active_spec() == old(self).active_spec(),
            final(self).config_spec() == old(self).config_spec(),
            final(self).generation_spec() == old(self).generation_spec(),
            final(self).delivering_spec() == old(self).delivering_spec(),
            final(self).closed_spec() == old(self).closed_spec(),
            fx.delivered@.len() == 0 && fx.renew@.len() == 0 && fx.release@.len() == 0 && fx.speak is None,
            fx.timers@.len() <= 1,
            forall|t: TimerRequest| fx.timers@.contains(t) ==> t.kind == TimerKind::Delivery
                && t.delay_ms == old(self).config_spec().batch_window_ms,
            (!old(self).closed_spec() && old(self).active_spec() is None && !old(self).armed_spec(TimerKind::Delivery)
                && !old(self).armed_spec(TimerKind::Retry))
                ==> fx.timers@.len() == 1,
    {
        let mut fx = Effects::none();
        let mut announcement = announcement;
        self.sequence = self.sequence + 1;
        announcement.sequence = self.sequence;
        let ghost before = self.pending_spec();
        let key = announcement.work_id.clone();
        proof {
            lemma_pending_insert(before, key@, announcement, (self.sequence - 1) as u64);
        }
        announcement_map_insert(&mut self.pending, key, announcement);
        proof {
            crate::strmap::lemma_insert_entry(before, announcement.work_id@, announcement);
        }
        let delay = self.config.batch_window_ms;
        self.schedule_delivery(delay, &mut fx);
        fx
    }

    fn finish_acknowledged_batch(&mut self, fx: &mut Effects)
        requires
            old(self).base_wf(),
        ensures
            final(self).wf(),
            final(self).pending_spec() == old(self).pending_spec(),
            final(self).config_spec() == old(self).config_spec(),
            final(self).sequence_spec() == old(self).sequence_spec(),
            final(self).generation_spec() == old(self).generation_spec(),
            final(self).delivering_spec() == old(self).delivering_spec(),
            final(self).closed_spec() == old(self).closed_spec(),
            final(fx).delivered@ == old(fx).delivered@,
            final(fx).renew@ == old(fx).renew@,
            final(fx).release@ == old(fx).release@,
            final(fx).speak == old(fx).speak,
            (old(self).active_spec() matches Some(b) && b.fully_acknowledged_spec()) ==> final(self).active_spec() is None
                && final(self).retry_count_spec() == 0,
            !(old(self).active_spec() matches Some(b) && b.fully_acknowledged_spec()) ==> *final(self) == *old(self)
                && final(fx).timers@ == old(fx).timers@,
    {
        let done = match &self.active {
            Some(b) => b.fully_acknowledged(),
            None => false,
        };
        if !done {
            return;
        }
        self.active = None;
        self.retry_count = 0;
        self.cancel_batch_timers();
        if !self.delivering && announcement_map_len(&self.pending) > 0 {
            self.schedule_delivery(0, fx);
        }
    }

    fn remove_into(&mut self, work_id: &str, fx: &mut Effects)
        requires
            old(self).wf(),
        ensures
            final(self).wf(),
            final(self).pending_spec() == seq_remove_entry(old(self).pending_spec(), work_id@),
            !has_key(final(self).pending_spec(), work_id@),
            final(self).config_spec() == old(self).config_spec(),
            final(self).sequence_spec() == old(self).sequence_spec(),
            final(self).generation_spec() == old(self).generation_spec(),
            final(self).delivering_spec() == old(self).delivering_spec(),
            final(self).closed_spec() == old(self).closed_spec(),
            final(fx).delivered@ == old(fx).delivered@,
            final(fx).renew@ == old(fx).renew@,
            final(fx).release@ == old(fx).release@,
            final(fx).speak == old(fx).speak,
            old(self).active_spec() is None ==> final(self).active_spec() is None,
            old(self).active_spec() matches Some(b) ==> (match final(self).active_spec() {
                Some(c) => same_batch(b, c) && string_views(c.acknowledged@) == acknowledged_after(b, work_id@)
                    && !c.fully_acknowledged_spec(),
                None => final(self).retry_count_spec() == 0,
            }),
    {
        let ghost before = self.pending_spec();
        announcement_map_shift_remove(&mut self.pending, work_id);
        proof {
            lemma_pending_remove(before, work_id@, self.sequence);
        }
        match self.active.take() {
            Some(mut b) => {
                let ghost b0 = b;
                if holds_id_exec(&b.work_ids, work_id) && !holds_id_exec(&b.acknowledged, work_id) {
                    b.acknowledged.push(work_id.to_owned());
                    proof {
                        assert(string_views(b.acknowledged@) =~= string_views(b0.acknowledged@).push(work_id@));
                    }
                }
                self.active = Some(b);
            },
            None => {},
        }
        self.finish_acknowledged_batch(fx);
    }

    /// Drop a queued announcement without confirming it: the Work was
    /// cancelled, so there is nothing to say, but an active batch holding it
    /// must still be able to finish. Nothing is marked delivered.
    pub fn remove(&mut self, work_id: &str) -> (fx: Effects)
        requires
            old(self).wf(),
        ensures
            final(self).wf(),
            final(self).pending_spec() == seq_remove_entry(old(self).pending_spec(), work_id@),
            !has_key(final(self).pending_spec(), work_id@),
            final(self).sequence_spec() == old(self).sequence_spec(),
            final(self).generation_spec() == old(self).generation_spec(),
            final(self).closed_spec() == old(self).closed_spec(),
            fx.delivered@.len() == 0 && fx.renew@.len() == 0 && fx.release@.len() == 0 && fx.speak is None,
            old(self).active_spec() is None ==> final(self).active_spec() is None,
            old(self).active_spec() matches Some(b) ==> (match final(self).active_spec() {
                Some(c) => same_batch(b, c) && string_views(c.acknowledged@) == acknowledged_after(b, work_id@)
                    && !c.fully_acknowledged_spec(),
                None => final(self).retry_count_spec() == 0,
            }),
    {
        let mut fx = Effects::none();
        self.remove_into(work_id, &mut fx);
        fx
    }

    fn confirm_into(&mut self, work_id: &str, fx: &mut Effects)
        requires
            old(self).wf(),
        ensures
            final(self).wf(),
            final(self).pending_spec() == seq_remove_entry(old(self).pending_spec(), work_id@),
            !has_key(final(self).pending_spec(), work_id@),
            final(self).config_spec() == old(self).config_spec(),
            final(self).sequence_spec() == old(self).sequence_spec(),
            final(self).generation_spec() == old(self).generation_spec(),
            final(self).delivering_spec() == old(self).delivering_spec(),
            final(self).closed_spec() == old(self).closed_spec(),
            final(fx).renew@ == old(fx).renew@,
            final(fx).release@ == old(fx).release@,
            final(fx).speak == old(fx).speak,
            ({
                let known = has_key(old(self).pending_spec(), work_id@) || (old(self).active_spec() matches Some(b)
                    && holds_id(b.work_ids@, work_id@));
                &&& known ==> string_views(final(fx).delivered@) == string_views(old(fx).delivered@).push(work_id@)
                &&& !known ==> final(fx).delivered@ == old(fx).delivered@
            }),
            old(self).active_spec() is None ==> final(self).active_spec() is None,
            old(self).active_spec() matches Some(b) ==> (match final(self).active_spec() {
                Some(c) => same_batch(b, c) && string_views(c.acknowledged@) == acknowledged_after(b, work_id@)
                    && !c.fully_acknowledged_spec(),
                None => final(self).retry_count_spec() == 0,
            }),
    {
        let in_pending = self.has(work_id);
        let in_batch = match &self.active {
            Some(b) => holds_id_exec(&b.work_ids, work_id),
            None => false,
        };
        self.remove_into(work_id, fx);
        if in_pending || in_batch {
            let ghost before = fx.delivered@;
            fx.delivered.push(work_id.to_owned());
            proof {
                assert(string_views(fx.delivered@) =~= string_views(before).push(work_id@));
            }
        }
    }

    /// Mark one Work delivered: the client reported that its announcement
    /// started playing. Its notification is marked delivered exactly when the
    /// queue was tracking it, queued or in the active batch.
    pub fn confirm(&mut self, work_id: &str) -> (fx: Effects)
        requires
            old(self).wf(),
        ensures
            final(self).wf(),
            final(self).pending_spec() == seq_remove_entry(old(self).pending_spec(), work_id@),
            !has_key(final(self).pending_spec(), work_id@),
            final(self).sequence_spec() == old(self).sequence_spec(),
            final(self).generation_spec() == old(self).generation_spec(),
            final(self).closed_spec() == old(self).closed_spec(),
            fx.renew@.len() == 0 && fx.release@.len() == 0 && fx.speak is None,
            ({
                let known = has_key(old(self).pending_spec(), work_id@) || (old(self).active_spec() matches Some(b)
                    && holds_id(b.work_ids@, work_id@));
                &&& known ==> string_views(fx.delivered@) == seq![work_id@]
                &&& !known ==> fx.delivered@.len() == 0
            }),
            old(self).active_spec() is None ==> final(self).active_spec() is None,
            old(self).active_spec() matches Some(b) ==> (match final(self).active_spec() {
                Some(c) => same_batch(b, c) && string_views(c.acknowledged@) == acknowledged_after(b, work_id@)
                    && !c.fully_acknowledged_spec(),
                None => final(self).retry_count_spec() == 0,
            }),
    {
        let mut fx = Effects::none();
        proof {
            assert(string_views(fx.delivered@) =~= Seq::<Seq<char>>::empty());
        }
        self.confirm_into(work_id, &mut fx);
        proof {
            assert(Seq::<Seq<char>>::empty().push(work_id@) =~= seq![work_id@]);
        }
        fx
    }
}

/// `s` is the response that presents batch `b`: the results envelope under
/// the catalog's header, truncated to the character budget, correlated to
/// the batch, written into the conversation only the first time.
pub open spec fn speak_request_for(s: SpeakRequest, b: Batch, config: AnnouncementManagerConfig, generation: u64) -> bool {
    &&& s.origin == ResponseOrigin::Announcement
    &&& s.generation == generation
    &&& s.work_ids@ == b.work_ids@
    &&& s.text@ == truncate_spec(
        join_lines(work_results_lines(b.announcements@, config.results_header@)),
        config.result_context_max_chars as nat,
        config.truncation_suffix@,
    )
    &&& (if b.turn_ids@.len() == 1 {
        s.context.turn_id matches Some(t) && t@ == b.turn_ids@[0]@
    } else {
        s.context.turn_id is None
    })
    &&& (if b.work_ids@.len() == 1 {
        s.context.task_id matches Some(t) && t@ == b.work_ids@[0]@
    } else {
        s.context.task_id is None
    })
    &&& s.context.task_ids@ == b.work_ids@
    &&& s.context.turn_ids@ == b.turn_ids@
    &&& s.context.delivery_sequence == Some(b.delivery_sequence)
    &&& s.context.authorization_id is None
    &&& s.context.turn_generation is None
    &&& !s.context.consumes_task_notification
    &&& s.inject_context == !b.context_injected
    &&& s.into_context == config.announce_into_context
}

/// Nothing for the host to do.
pub open spec fn no_effects(fx: Effects) -> bool {
    &&& fx.timers@.len() == 0
    &&& fx.delivered@.len() == 0
    &&& fx.renew@.len() == 0
    &&& fx.release@.len() == 0
    &&& fx.speak is None
}

/// What scheduling a retry of batch `c` does under `config`, when a retry
/// was `armed` and `count` retries were made: nothing when one is armed;
/// abandoning the batch, its claims released, once the retries are used up;
/// otherwise the next retry, after the backoff. `post` is the queue after,
/// and `fx` the effects after `fx0`.
pub open spec fn retry_outcome(
    config: AnnouncementManagerConfig,
    armed: bool,
    count: u32,
    post: AnnouncementQueue,
    c: Batch,
    fx0: Effects,
    fx: Effects,
) -> bool {
    &&& armed ==> post.active_spec() == Some(c) && post.retry_count_spec() == count && fx.timers@ == fx0.timers@
        && fx.release@ == fx0.release@
    &&& (!armed && count >= config.max_retry_attempts) ==> ({
        &&& post.active_spec() is None
        &&& post.retry_count_spec() == 0
        &&& c.work_ids@.len() > 0 ==> fx.release@.len() == fx0.release@.len() + 1 && fx.release@.drop_last() == fx0.release@
            && fx.release@.last()@ == c.work_ids@
        &&& c.work_ids@.len() == 0 ==> fx.release@ == fx0.release@
        &&& forall|i: int| 0 <= i < c.work_ids@.len() ==> !has_key(post.pending_spec(), (#[trigger] c.work_ids@[i])@)
        &&& (!post.closed_spec() && !post.delivering_spec() && post.pending_spec().len() > 0) ==> post.armed_spec(TimerKind::Delivery)
    })
    &&& (!armed && count < config.max_retry_attempts) ==> ({
        &&& post.active_spec() == Some(c)
        &&& post.retry_count_spec() == count + 1
        &&& post.armed_spec(TimerKind::Retry)
        &&& fx.release@ == fx0.release@
        &&& fx.timers@ == fx0.timers@.push(TimerRequest {
            kind: TimerKind::Retry,
            epoch: post.epoch_spec(TimerKind::Retry),
            delay_ms: backoff_spec(config.retry_base_ms, config.retry_max_ms, (count + 1) as u32),
        })
    })
}

/// No claim released in `fx`.
pub open spec fn no_release(fx: Effects) -> bool {
    fx.release@.len() == 0
}

/// The batch a delivery presents: the active one, or the next one built
/// from the queue.
pub open spec fn claimed_batch(pre: AnnouncementQueue, c: Batch) -> bool {
    match pre.active_spec() {
        Some(b) => c == b,
        None => batch_of(pre.pending_spec(), pre.config_spec(), c),
    }
}

/// Whether the claim on `c` is renewed, from `pre`'s heartbeat state.
pub open spec fn claim_renewed(pre: AnnouncementQueue, c: Batch, fx: Effects) -> bool {
    &&& !pre.armed_spec(TimerKind::Lease) ==> fx.renew@.len() == 1 && fx.renew@[0]@ == c.work_ids@
    &&& pre.armed_spec(TimerKind::Lease) ==> fx.renew@.len() == 0
}

/// One delivery attempt, from `pre` to `post` with effects `fx`. Nothing
/// happens while closed, while an attempt is in flight, or while delivery is
/// blocked. With the frontend ready, the active batch (or the next one built
/// from the queue) is spoken and its claim renewed. With no frontend, the
/// batch is claimed all the same, its claim renewed, and a retry scheduled
/// (or the batch abandoned once its retries are used up).
pub open spec fn delivery_outcome(pre: AnnouncementQueue, post: AnnouncementQueue, fx: Effects, blocked: bool, ready: bool) -> bool {
    let skip = pre.closed_spec() || pre.delivering_spec() || blocked;
    let nothing = pre.active_spec() is None && pre.pending_spec().len() == 0;
    &&& post.config_spec() == pre.config_spec()
    &&& post.sequence_spec() == pre.sequence_spec()
    &&& post.generation_spec() == pre.generation_spec()
    &&& post.closed_spec() == pre.closed_spec()
    &&& fx.delivered@.len() == 0
    &&& (skip || nothing) ==> post == pre && no_effects(fx)
    &&& (!skip && !nothing && ready) ==> exists|c: Batch| #![trigger claimed_batch(pre, c)] ({
        &&& claimed_batch(pre, c)
        &&& post.active_spec() == Some(c)
        &&& post.pending_spec() == pre.pending_spec()
        &&& post.delivering_spec()
        &&& post.retry_count_spec() == pre.retry_count_spec()
        &&& claim_renewed(pre, c, fx)
        &&& fx.release@.len() == 0
        &&& fx.speak matches Some(s) && speak_request_for(s, c, pre.config_spec(), pre.generation_spec())
    })
    &&& (!skip && !nothing && !ready) ==> exists|c: Batch, fx0: Effects| #![trigger claimed_batch(pre, c), no_release(fx0)] ({
        &&& claimed_batch(pre, c)
        &&& !post.delivering_spec()
        &&& fx.speak is None
        &&& claim_renewed(pre, c, fx)
        &&& no_release(fx0)
        &&& retry_outcome(pre.config_spec(), pre.armed_spec(TimerKind::Retry), pre.retry_count_spec(), post, c, fx0, fx)
    })
}

impl AnnouncementQueue {
    fn schedule_retry(&mut self, fx: &mut Effects)
        requires
            old(self).wf(),
        ensures
            final(self).wf(),
            final(self).config_spec() == old(self).config_spec(),
            final(self).sequence_spec() == old(self).sequence_spec(),
            final(self).generation_spec() == old(self).generation_spec(),
            final(self).delivering_spec() == old(self).delivering_spec(),
            final(self).closed_spec() == old(self).closed_spec(),
            final(fx).delivered@ == old(fx).delivered@,
            final(fx).renew@ == old(fx).renew@,
            final(fx).speak == old(fx).speak,
            (old(self).closed || old(self).active is None || old(self).retry_armed) ==> *final(self) == *old(self) && *final(fx) == *old(fx),
            (!old(self).closed && old(self).active is Some) ==> retry_outcome(
                old(self).config,
                old(self).retry_armed,
                old(self).retry_count,
                *final(self),
                old(self).active->0,
                *old(fx),
                *final(fx),
            ),
            (!old(self).closed && old(self).active is Some && !old(self).retry_armed && old(self).retry_count < old(self).config.max_retry_attempts)
                ==> final(self).pending_spec() == old(self).pending_spec() && final(self).lease_armed == old(self).lease_armed
                && final(self).acknowledgement_armed == old(self).acknowledgement_armed,
            !old(self).acknowledgement_armed ==> !final(self).acknowledgement_armed,
    {
        if self.closed || self.active.is_none() || self.retry_armed {
            return;
        }
        if self.retry_count >= self.config.max_retry_attempts {
            self.retry_count = 0;
            self.abandon_now(fx);
            return;
        }
        self.retry_count = self.retry_count + 1;
        let delay = backoff_delay(self.config.retry_base_ms, self.config.retry_max_ms, self.retry_count);
        self.retry_armed = true;
        self.arm(TimerKind::Retry, delay, fx);
    }

    fn ensure_lease_renewal(&mut self, fx: &mut Effects)
        requires
            old(self).wf(),
        ensures
            final(self).wf(),
            final(self).pending_spec() == old(self).pending_spec(),
            final(self).active_spec() == old(self).active_spec(),
            final(self).config_spec() == old(self).config_spec(),
            final(self).sequence_spec() == old(self).sequence_spec(),
            final(self).generation_spec() == old(self).generation_spec(),
            final(self).delivering_spec() == old(self).delivering_spec(),
            final(self).closed_spec() == old(self).closed_spec(),
            final(self).retry_count_spec() == old(self).retry_count_spec(),
            final(self).retry_armed == old(self).retry_armed,
            final(self).epoch_spec(TimerKind::Retry) == old(self).epoch_spec(TimerKind::Retry),
            final(fx).delivered@ == old(fx).delivered@,
            final(fx).release@ == old(fx).release@,
            final(fx).speak == old(fx).speak,
            (old(self).lease_armed || old(self).active is None) ==> *final(self) == *old(self) && *final(fx) == *old(fx),
            old(self).active matches Some(b) ==> (!old(self).lease_armed ==> final(fx).renew@.len() == old(fx).renew@.len() + 1
                && final(fx).renew@.drop_last() == old(fx).renew@ && final(fx).renew@.last()@ == b.work_ids@ && final(self).lease_armed),
    {
        if self.lease_armed {
            return;
        }
        match &self.active {
            Some(b) => {
                let ghost before = fx.renew@;
                fx.renew.push(clone_strings(&b.work_ids));
                assert(fx.renew@.drop_last() =~= before);
            },
            None => {
                return;
            },
        }
        self.lease_armed = true;
        let interval = self.config.lease_renew_interval_ms;
        self.arm(TimerKind::Lease, interval, fx);
    }
}

impl AnnouncementQueue {
    fn deliver(&mut self, blocked: bool, ready: bool) -> (fx: Effects)
        requires
            old(self).wf(),
        ensures
            final(self).wf(),
            delivery_outcome(*old(self), *final(self), fx, blocked, ready),
    {
        let mut fx = Effects::none();
        if self.closed || self.delivering || blocked {
            return fx;
        }
        if self.active.is_none() && announcement_map_len(&self.pending) == 0 {
            return fx;
        }
        if self.active.is_none() {
            self.active = self.create_batch();
            proof {
                let b = self.active->0;
                assert(!holds_id(b.acknowledged@, b.work_ids@[0]@));
            }
        }
        let ghost c = self.active->0;
        assert(claimed_batch(*old(self), c));
        if !ready {
            self.ensure_lease_renewal(&mut fx);
            let ghost fx0 = fx;
            assert(no_release(fx0));
            self.schedule_retry(&mut fx);
            return fx;
        }
        let generation = self.delivery_generation;
        self.ensure_lease_renewal(&mut fx);
        let request = match &self.active {
            Some(b) => {
                let text = truncate_result(
                    format_work_results(b.announcements.as_slice(), self.config.results_header.as_str()).as_str(),
                    self.config.result_context_max_chars,
                    self.config.truncation_suffix.as_str(),
                );
                let turn_id = if b.turn_ids.len() == 1 {
                    Some(b.turn_ids[0].clone())
                } else {
                    None
                };
                let task_id = if b.work_ids.len() == 1 {
                    Some(b.work_ids[0].clone())
                } else {
                    None
                };
                let context = ResponseRequestContext {
                    turn_id,
                    task_id,
                    task_ids: clone_strings(&b.work_ids),
                    turn_ids: clone_strings(&b.turn_ids),
                    authorization_id: None,
                    turn_generation: None,
                    delivery_sequence: Some(b.delivery_sequence),
                    consumes_task_notification: false,
                };
                SpeakRequest {
                    origin: ResponseOrigin::Announcement,
                    generation,
                    work_ids: clone_strings(&b.work_ids),
                    text,
                    context,
                    inject_context: !b.context_injected,
                    into_context: self.config.announce_into_context,
                }
            },
            None => {
                return fx;
            },
        };
        self.delivering = true;
        fx.speak = Some(request);
        fx
    }

    fn on_acknowledgement_timeout(&mut self, blocked: bool, fx: &mut Effects)
        requires
            old(self).wf(),
            no_effects(*old(fx)),
        ensures
            final(self).wf(),
            acknowledgement_outcome(*old(self), *final(self), *final(fx), blocked),
    {
        let completed = match &self.active {
            Some(b) => b.response_completed,
            None => false,
        };
        if !completed {
            return;
        }
        if blocked {
            self.acknowledgement_armed = true;
            let timeout = self.config.acknowledgement_timeout_ms;
            self.arm(TimerKind::Acknowledgement, timeout, fx);
            assert(fx.timers@ =~= seq![TimerRequest {
                kind: TimerKind::Acknowledgement,
                epoch: self.epoch_spec(TimerKind::Acknowledgement),
                delay_ms: timeout,
            }]);
            return;
        }
        let ghost armed = self.retry_armed;
        let ghost count = self.retry_count;
        match self.active.take() {
            Some(mut b) => {
                b.response_completed = false;
                b.retry_requested = self.delivering;
                self.active = Some(b);
            },
            None => {},
        }
        if !self.delivering {
            let ghost prior = *fx;
            assert(no_effects(prior));
            self.schedule_retry(fx);
            assert(no_effects(prior) && retry_outcome(
                self.config,
                armed,
                count,
                *self,
                Batch { response_completed: false, retry_requested: false, ..old(self).active->0 },
                prior,
                *fx,
            ));
        }
    }

    fn on_lease_tick(&mut self, fx: &mut Effects)
        requires
            old(self).wf(),
            no_effects(*old(fx)),
        ensures
            final(self).wf(),
            lease_outcome(*old(self), *final(self), *final(fx)),
    {
        match &self.active {
            Some(b) => {
                fx.renew.push(clone_strings(&b.work_ids));
            },
            None => {
                return;
            },
        }
        self.lease_armed = true;
        let interval = self.config.lease_renew_interval_ms;
        self.arm(TimerKind::Lease, interval, fx);
        assert(fx.timers@ =~= seq![TimerRequest { kind: TimerKind::Lease, epoch: self.epoch_spec(TimerKind::Lease), delay_ms: interval }]);
        assert(fx.timers@ =~= seq![TimerRequest { kind: TimerKind::Lease, epoch: self.epoch_spec(TimerKind::Lease), delay_ms: interval }]);
    }
}

/// What a fired acknowledgement timer does, from `pre` to `post`: nothing
/// unless the active batch was generated; while delivery is blocked the
/// timer is re-armed instead of retrying, since a second spoken response
/// while the first is queued is the failure injection exists to prevent;
/// otherwise the batch is retried.
pub open spec fn acknowledgement_outcome(pre: AnnouncementQueue, post: AnnouncementQueue, fx: Effects, blocked: bool) -> bool {
    &&& post.config_spec() == pre.config_spec()
    &&& post.sequence_spec() == pre.sequence_spec()
    &&& post.generation_spec() == pre.generation_spec()
    &&& post.closed_spec() == pre.closed_spec()
    &&& post.delivering_spec() == pre.delivering_spec()
    &&& fx.delivered@.len() == 0 && fx.renew@.len() == 0 && fx.speak is None
    &&& !(pre.active_spec() matches Some(b) && b.response_completed) ==> post == pre && no_effects(fx)
    &&& pre.active_spec() matches Some(b) ==> (b.response_completed ==> ({
        &&& blocked ==> post.active_spec() == pre.active_spec() && post.pending_spec() == pre.pending_spec() && fx.release@.len() == 0
            && fx.timers@ == seq![TimerRequest {
            kind: TimerKind::Acknowledgement,
            epoch: post.epoch_spec(TimerKind::Acknowledgement),
            delay_ms: pre.config_spec().acknowledgement_timeout_ms,
        }]
        &&& (!blocked && pre.delivering_spec()) ==> post.active_spec() == Some(Batch {
            response_completed: false,
            retry_requested: true,
            ..b
        }) && post.pending_spec() == pre.pending_spec() && no_effects(fx)
        &&& (!blocked && !pre.delivering_spec()) ==> exists|prior: Effects| #![trigger no_effects(prior)] no_effects(prior)
            && retry_outcome(
            pre.config_spec(),
            pre.armed_spec(TimerKind::Retry),
            pre.retry_count_spec(),
            post,
            Batch { response_completed: false, retry_requested: false, ..b },
            prior,
            fx,
        )
    }))
}

/// What a fired lease timer does: while a batch is active, its claim is
/// renewed and the heartbeat re-armed.
pub open spec fn lease_outcome(pre: AnnouncementQueue, post: AnnouncementQueue, fx: Effects) -> bool {
    &&& post.pending_spec() == pre.pending_spec()
    &&& post.active_spec() == pre.active_spec()
    &&& post.config_spec() == pre.config_spec()
    &&& post.sequence_spec() == pre.sequence_spec()
    &&& post.generation_spec() == pre.generation_spec()
    &&& post.closed_spec() == pre.closed_spec()
    &&& post.delivering_spec() == pre.delivering_spec()
    &&& post.retry_count_spec() == pre.retry_count_spec()
    &&& pre.active_spec() is None ==> post == pre && no_effects(fx)
    &&& pre.active_spec() matches Some(b) ==> ({
        &&& fx.renew@.len() == 1 && fx.renew@[0]@ == b.work_ids@
        &&& fx.timers@ == seq![TimerRequest {
            kind: TimerKind::Lease,
            epoch: post.epoch_spec(TimerKind::Lease),
            delay_ms: pre.config_spec().lease_renew_interval_ms,
        }]
        &&& fx.delivered@.len() == 0 && fx.release@.len() == 0 && fx.speak is None
    })
}

/// Whether batch `b` holds one of `ids`.
pub open spec fn holds_any(b: Batch, ids: Seq<String>) -> bool {
    exists|i: int| 0 <= i < ids.len() && holds_id(b.work_ids@, (#[trigger] ids[i])@)
}

fn holds_any_exec(held: &Vec<String>, ids: &[String]) -> (r: bool)
    ensures
        r == exists|i: int| 0 <= i < ids@.len() && holds_id(held@, (#[trigger] ids@[i])@),
{
    let mut i: usize = 0;
    while i < ids.len()
        invariant
            i <= ids@.len(),
            forall|k: int| 0 <= k < i ==> !holds_id(held@, (#[trigger] ids@[k])@),
        decreases ids.len() - i,
    {
        if holds_id_exec(held, ids[i].as_str()) {
            return true;
        }
        i = i + 1;
    }
    false
}

/// `holds_id` reads only the character sequences.
proof fn lemma_holds_views(s: Seq<String>, x: Seq<char>)
    ensures
        holds_id(s, x) <==> string_views(s).contains(x),
{
    if holds_id(s, x) {
        let i = choose|i: int| 0 <= i < s.len() && (#[trigger] s[i])@ == x;
        assert(string_views(s)[i] == x);
    }
    if string_views(s).contains(x) {
        let i = choose|i: int| 0 <= i < string_views(s).len() && string_views(s)[i] == x;
        assert(s[i]@ == x);
    }
}

/// After acknowledging `id`, everything acknowledged before still is, and
/// `id` is too when the batch holds it.
proof fn lemma_acknowledged_after(c: Batch, c2: Batch, id: Seq<char>)
    requires
        string_views(c2.acknowledged@) == acknowledged_after(c, id),
    ensures
        forall|x: Seq<char>| holds_id(c.acknowledged@, x) ==> holds_id(c2.acknowledged@, x),
        holds_id(c.work_ids@, id) ==> holds_id(c2.acknowledged@, id),
{
    assert forall|x: Seq<char>| holds_id(c.acknowledged@, x) implies holds_id(c2.acknowledged@, x) by {
        lemma_holds_views(c.acknowledged@, x);
        lemma_holds_views(c2.acknowledged@, x);
        let i = choose|i: int| 0 <= i < string_views(c.acknowledged@).len() && string_views(c.acknowledged@)[i] == x;
        assert(string_views(c2.acknowledged@)[i] == x);
    }
    if holds_id(c.work_ids@, id) {
        lemma_holds_views(c2.acknowledged@, id);
        lemma_holds_views(c.acknowledged@, id);
        if !holds_id(c.acknowledged@, id) {
            assert(string_views(c2.acknowledged@).last() == id);
        }
    }
}

impl AnnouncementQueue {
    /// The queue with timer `kind` marked as no longer armed: how it stands
    /// when that timer fires.
    pub closed spec fn disarmed(self, kind: TimerKind) -> Self {
        match kind {
            TimerKind::Delivery => AnnouncementQueue { delivery_armed: false, ..self },
            TimerKind::Retry => AnnouncementQueue { retry_armed: false, ..self },
            TimerKind::Acknowledgement => AnnouncementQueue { acknowledgement_armed: false, ..self },
            TimerKind::Lease => AnnouncementQueue { lease_armed: false, ..self },
        }
    }

    /// Marking timer `kind` as no longer armed changes nothing else: the
    /// queue's contents, its flags, every epoch and every other timer stay
    /// as they were.
    pub proof fn lemma_disarmed(self, kind: TimerKind)
        ensures
            self.disarmed(kind).config_spec() == self.config_spec(),
            self.disarmed(kind).sequence_spec() == self.sequence_spec(),
            self.disarmed(kind).generation_spec() == self.generation_spec(),
            self.disarmed(kind).pending_spec() == self.pending_spec(),
            self.disarmed(kind).active_spec() == self.active_spec(),
            self.disarmed(kind).retry_count_spec() == self.retry_count_spec(),
            self.disarmed(kind).delivering_spec() == self.delivering_spec(),
            self.disarmed(kind).closed_spec() == self.closed_spec(),
            !self.disarmed(kind).armed_spec(kind),
            forall|k: TimerKind| k != kind ==> #[trigger] self.disarmed(kind).armed_spec(k) == self.armed_spec(k),
            forall|k: TimerKind| #[trigger] self.disarmed(kind).epoch_spec(k) == self.epoch_spec(k),
    {
    }

    /// Ask for a redelivery of a batch that did not land. Only a request
    /// naming a Work of the active batch counts. While an attempt is in
    /// flight the retry is left for that attempt's epilogue; otherwise it is
    /// scheduled now (or the batch abandoned once its retries are used up).
    pub fn retry_many(&mut self, work_ids: &[String]) -> (fx: Effects)
        requires
            old(self).wf(),
        ensures
            final(self).wf(),
            final(self).config_spec() == old(self).config_spec(),
            final(self).sequence_spec() == old(self).sequence_spec(),
            final(self).generation_spec() == old(self).generation_spec(),
            final(self).closed_spec() == old(self).closed_spec(),
            final(self).delivering_spec() == old(self).delivering_spec(),
            fx.delivered@.len() == 0 && fx.renew@.len() == 0 && fx.speak is None,
            !(old(self).active_spec() matches Some(b) && holds_any(b, work_ids@)) ==> *final(self) == *old(self) && no_effects(fx),
            old(self).active_spec() matches Some(b) ==> (holds_any(b, work_ids@) ==> ({
                &&& !final(self).armed_spec(TimerKind::Acknowledgement)
                &&& old(self).delivering_spec() ==> final(self).active_spec() == Some(Batch {
                    response_completed: false,
                    retry_requested: true,
                    ..b
                }) && final(self).pending_spec() == old(self).pending_spec() && no_effects(fx)
                    && !final(self).armed_spec(TimerKind::Retry)
                &&& !old(self).delivering_spec() ==> exists|prior: Effects| #![trigger no_effects(prior)] no_effects(prior)
                    && retry_outcome(
                    old(self).config_spec(),
                    false,
                    old(self).retry_count_spec(),
                    *final(self),
                    Batch { response_completed: false, retry_requested: false, ..b },
                    prior,
                    fx,
                )
            })),
    {
        let mut fx = Effects::none();
        let hit = match &self.active {
            Some(b) => holds_any_exec(&b.work_ids, work_ids),
            None => false,
        };
        if !hit {
            return fx;
        }
        match self.active.take() {
            Some(mut b) => {
                b.response_completed = false;
                b.retry_requested = self.delivering;
                self.active = Some(b);
            },
            None => {},
        }
        self.acknowledgement_epoch = bump(self.acknowledgement_epoch);
        self.retry_epoch = bump(self.retry_epoch);
        self.acknowledgement_armed = false;
        self.retry_armed = false;
        if !self.delivering {
            let ghost prior = fx;
            assert(no_effects(prior));
            self.schedule_retry(&mut fx);
        }
        fx
    }

    /// One delivery attempt settled. The outcome applies only to the batch
    /// that produced it, and only in the generation it was started in. A
    /// generated response is never taken as delivered: it only starts the
    /// wait for the playback receipt. Anything else is a retry.
    pub fn delivered(&mut self, generation: u64, work_ids: &[String], outcome: &ResponseOutcome) -> (fx: Effects)
        requires
            old(self).wf(),
        ensures
            final(self).wf(),
            final(self).config_spec() == old(self).config_spec(),
            final(self).sequence_spec() == old(self).sequence_spec(),
            final(self).generation_spec() == old(self).generation_spec(),
            final(self).closed_spec() == old(self).closed_spec(),
            !final(self).delivering_spec(),
            fx.delivered@.len() == 0 && fx.renew@.len() == 0 && fx.speak is None,
            generation != old(self).generation_spec() ==> final(self).pending_spec() == old(self).pending_spec()
                && final(self).active_spec() == old(self).active_spec() && final(self).retry_count_spec()
                == old(self).retry_count_spec() && no_effects(fx),
            old(self).active_spec() matches Some(b) ==> ((generation == old(self).generation_spec() && same_ids(b.work_ids@, work_ids@)
                && !b.fully_acknowledged_spec() && !b.retry_requested) ==> ({
                let b2 = Batch {
                    context_injected: b.context_injected || outcome.context_injected,
                    response_completed: b.response_completed || outcome.completed,
                    ..b
                };
                &&& outcome.completed ==> final(self).active_spec() == Some(b2) && final(self).pending_spec()
                    == old(self).pending_spec() && fx.release@.len() == 0 && fx.timers@ == seq![TimerRequest {
                    kind: TimerKind::Acknowledgement,
                    epoch: final(self).epoch_spec(TimerKind::Acknowledgement),
                    delay_ms: old(self).config_spec().acknowledgement_timeout_ms,
                }]
                &&& !outcome.completed ==> exists|prior: Effects| #![trigger no_effects(prior)] no_effects(prior)
                    && retry_outcome(
                    old(self).config_spec(),
                    old(self).armed_spec(TimerKind::Retry),
                    old(self).retry_count_spec(),
                    *final(self),
                    b2,
                    prior,
                    fx,
                )
            })),
    {
        let mut fx = Effects::none();
        self.delivering = false;
        if generation != self.delivery_generation {
            return fx;
        }
        let still = match &self.active {
            Some(b) => same_ids_exec(&b.work_ids, work_ids),
            None => false,
        };
        let ghost prior = fx;
        if still {
            match self.active.take() {
                Some(mut b) => {
                    let ghost b0 = b;
                    if outcome.context_injected {
                        b.context_injected = true;
                    }
                    if outcome.completed {
                        b.response_completed = true;
                    }
                    proof {
                        lemma_same_acknowledgement(b0, b);
                    }
                    self.active = Some(b);
                },
                None => {},
            }
            if outcome.completed {
                self.acknowledgement_armed = true;
                let timeout = self.config.acknowledgement_timeout_ms;
                self.arm(TimerKind::Acknowledgement, timeout, &mut fx);
                assert(fx.timers@ =~= seq![TimerRequest {
                    kind: TimerKind::Acknowledgement,
                    epoch: self.epoch_spec(TimerKind::Acknowledgement),
                    delay_ms: timeout,
                }]);
            } else {
                assert(no_effects(prior));
                self.schedule_retry(&mut fx);
            }
        }
        let ghost mid = *self;
        let ghost mid_fx = fx;
        self.finish_acknowledged_batch(&mut fx);
        let requested = match &self.active {
            Some(b) => b.retry_requested,
            None => false,
        };
        if requested {
            match self.active.take() {
                Some(mut b) => {
                    let ghost b0 = b;
                    b.retry_requested = false;
                    proof {
                        lemma_same_acknowledgement(b0, b);
                    }
                    self.active = Some(b);
                },
                None => {},
            }
            self.schedule_retry(&mut fx);
        }
        if self.active.is_none() && announcement_map_len(&self.pending) > 0 {
            self.schedule_delivery(0, &mut fx);
        }
        fx
    }
}

/// Whether the queue tracks Work `x`: queued, or in the active batch.
pub open spec fn tracks(q: AnnouncementQueue, x: Seq<char>) -> bool {
    has_key(q.pending_spec(), x) || (q.active_spec() matches Some(b) && holds_id(b.work_ids@, x))
}

/// What pausing does to the claims: every tracked Work's claim is released,
/// in one list, when there is any.
pub open spec fn released_all(pre: AnnouncementQueue, fx: Effects) -> bool {
    &&& fx.release@.len() <= 1
    &&& fx.release@.len() == 0 <==> (forall|x: Seq<char>| !tracks(pre, x))
    &&& fx.release@.len() == 1 ==> forall|x: Seq<char>| holds_id(fx.release@[0]@, x) <==> tracks(pre, x)
}

impl AnnouncementQueue {
    fn pause_into(&mut self, fx: &mut Effects)
        requires
            old(self).wf(),
            no_effects(*old(fx)),
        ensures
            final(self).wf(),
            final(self).pending_spec().len() == 0,
            final(self).active_spec() is None,
            !final(self).delivering_spec(),
            final(self).retry_count_spec() == 0,
            final(self).generation_spec() == next_generation(old(self).generation_spec()),
            final(self).config_spec() == old(self).config_spec(),
            final(self).sequence_spec() == old(self).sequence_spec(),
            final(self).closed_spec() == old(self).closed_spec(),
            forall|k: TimerKind| !final(self).armed_spec(k),
            final(fx).timers@.len() == 0 && final(fx).delivered@.len() == 0 && final(fx).renew@.len() == 0 && final(fx).speak is None,
            released_all(*old(self), *final(fx)),
    {
        let ghost pre = *self;
        let n = announcement_map_len(&self.pending);
        let mut ids: Vec<String> = Vec::new();
        let mut i: usize = 0;
        while i < n
            invariant
                *self == pre,
                n == self.pending_spec().len(),
                i <= n,
                ids@.len() == i,
                forall|x: Seq<char>| holds_id(ids@, x) <==> exists|k: int| 0 <= k < i && (#[trigger] self.pending_spec()[k]).0 == x,
            decreases n - i,
        {
            let key = announcement_map_key_at(&self.pending, i);
            let ghost before = ids@;
            ids.push(key.to_owned());
            proof {
                assert forall|x: Seq<char>| holds_id(ids@, x) <==> exists|k: int| 0 <= k < i + 1 && (#[trigger] self.pending_spec()[k]).0 == x by {
                    if holds_id(ids@, x) {
                        let j = choose|j: int| 0 <= j < ids@.len() && (#[trigger] ids@[j])@ == x;
                        if j < i {
                            assert(before[j] == ids@[j]);
                            assert(holds_id(before, x));
                        } else {
                            assert(self.pending_spec()[i as int].0 == x);
                        }
                    }
                    if exists|k: int| 0 <= k < i + 1 && (#[trigger] self.pending_spec()[k]).0 == x {
                        let k = choose|k: int| 0 <= k < i + 1 && (#[trigger] self.pending_spec()[k]).0 == x;
                        if k < i {
                            assert(holds_id(before, x));
                            let j = choose|j: int| 0 <= j < before.len() && (#[trigger] before[j])@ == x;
                            assert(ids@[j] == before[j]);
                        } else {
                            assert(ids@[i as int]@ == x);
                        }
                    }
                }
            }
            i = i + 1;
        }
        proof {
            assert forall|x: Seq<char>| holds_id(ids@, x) <==> has_key(self.pending_spec(), x) by {
                if has_key(self.pending_spec(), x) {
                    let k = choose|k: int| 0 <= k < self.pending_spec().len() && self.pending_spec()[k].0 == x;
                    assert((self.pending_spec()[k]).0 == x);
                }
            }
        }
        match &self.active {
            Some(b) => {
                let mut j: usize = 0;
                while j < b.work_ids.len()
                    invariant
                        j <= b.work_ids@.len(),
                        forall|x: Seq<char>| holds_id(ids@, x) <==> (has_key(pre.pending_spec(), x) || exists|k: int|
                            0 <= k < j && (#[trigger] b.work_ids@[k])@ == x),
                    decreases b.work_ids.len() - j,
                {
                    let ghost before = ids@;
                    if !holds_id_exec(&ids, b.work_ids[j].as_str()) {
                        ids.push(b.work_ids[j].clone());
                    }
                    proof {
                        assert forall|x: Seq<char>| holds_id(ids@, x) <==> (has_key(pre.pending_spec(), x) || exists|k: int|
                            0 <= k < j + 1 && (#[trigger] b.work_ids@[k])@ == x) by {
                            if holds_id(ids@, x) {
                                let m = choose|m: int| 0 <= m < ids@.len() && (#[trigger] ids@[m])@ == x;
                                if m < before.len() {
                                    assert(before[m] == ids@[m]);
                                    assert(holds_id(before, x));
                                } else {
                                    assert(b.work_ids@[j as int]@ == x);
                                }
                            }
                            if exists|k: int| 0 <= k < j + 1 && (#[trigger] b.work_ids@[k])@ == x {
                                let k = choose|k: int| 0 <= k < j + 1 && (#[trigger] b.work_ids@[k])@ == x;
                                if k == j && !holds_id(before, x) {
                                    assert(ids@[before.len() as int]@ == x);
                                }
                            }
                            if holds_id(before, x) {
                                let m = choose|m: int| 0 <= m < before.len() && (#[trigger] before[m])@ == x;
                                assert(ids@[m] == before[m]);
                            }
                        }
                    }
                    j = j + 1;
                }
            },
            None => {},
        }
        proof {
            assert forall|x: Seq<char>| holds_id(ids@, x) <==> tracks(pre, x) by {}
        }
        self.delivery_armed = false;
        self.delivery_epoch = bump(self.delivery_epoch);
        self.cancel_batch_timers();
        self.delivery_generation = bump(self.delivery_generation);
        announcement_map_clear(&mut self.pending);
        self.active = None;
        self.delivering = false;
        self.retry_count = 0;
        let ghost gids = ids@;
        if ids.len() > 0 {
            fx.release.push(ids);
            assert(fx.release@.len() == 1 && fx.release@[0]@ == gids);
            assert(holds_id(gids, gids[0]@));
            assert(tracks(pre, gids[0]@));
        } else {
            assert forall|x: Seq<char>| !tracks(pre, x) by {
                if tracks(pre, x) {
                    assert(holds_id(ids@, x));
                }
            }
        }
    }

    /// Drop everything and release every claim: on sleep, deactivation and
    /// mute. The results are not lost, since the next frontend to connect
    /// claims them again. An attempt still in flight reports into a new
    /// generation and is ignored.
    pub fn pause(&mut self) -> (fx: Effects)
        requires
            old(self).wf(),
        ensures
            final(self).wf(),
            final(self).pending_spec().len() == 0,
            final(self).active_spec() is None,
            !final(self).delivering_spec(),
            final(self).retry_count_spec() == 0,
            final(self).generation_spec() == next_generation(old(self).generation_spec()),
            final(self).config_spec() == old(self).config_spec(),
            final(self).sequence_spec() == old(self).sequence_spec(),
            final(self).closed_spec() == old(self).closed_spec(),
            forall|k: TimerKind| !final(self).armed_spec(k),
            fx.timers@.len() == 0 && fx.delivered@.len() == 0 && fx.renew@.len() == 0 && fx.speak is None,
            released_all(*old(self), fx),
    {
        let mut fx = Effects::none();
        self.pause_into(&mut fx);
        fx
    }

    /// Stop for good: pause, and speak nothing further.
    pub fn close(&mut self) -> (fx: Effects)
        requires
            old(self).wf(),
        ensures
            final(self).wf(),
            final(self).closed_spec(),
            final(self).pending_spec().len() == 0,
            final(self).active_spec() is None,
            !final(self).delivering_spec(),
            final(self).generation_spec() == next_generation(old(self).generation_spec()),
            final(self).config_spec() == old(self).config_spec(),
            final(self).sequence_spec() == old(self).sequence_spec(),
            forall|k: TimerKind| !final(self).armed_spec(k),
            fx.timers@.len() == 0 && fx.delivered@.len() == 0 && fx.renew@.len() == 0 && fx.speak is None,
            released_all(*old(self), fx),
    {
        let mut fx = Effects::none();
        self.pause_into(&mut fx);
        let ghost mid = *self;
        self.closed = true;
        assert forall|k: TimerKind| !self.armed_spec(k) by {
            assert(!mid.armed_spec(k));
        }
        fx
    }

    /// Deliver now, unless delivery is blocked.
    pub fn flush(&mut self, blocked: bool, ready: bool) -> (fx: Effects)
        requires
            old(self).wf(),
        ensures
            final(self).wf(),
            blocked ==> *final(self) == *old(self) && no_effects(fx),
            !blocked ==> delivery_outcome(old(self).disarmed(TimerKind::Delivery), *final(self), fx, false, ready),
            !blocked && (old(self).closed_spec() || old(self).delivering_spec()) ==> *final(self) == old(self).disarmed(
                TimerKind::Delivery,
            ) && no_effects(fx),
    {
        if blocked {
            return Effects::none();
        }
        self.delivery_armed = false;
        self.deliver(false, ready)
    }

    /// A timer the host armed fired. One whose epoch is no longer current
    /// was superseded or cancelled, and does nothing.
    pub fn timer_fired(&mut self, kind: TimerKind, epoch: u64, blocked: bool, ready: bool) -> (fx: Effects)
        requires
            old(self).wf(),
        ensures
            final(self).wf(),
            epoch != old(self).epoch_spec(kind) ==> *final(self) == *old(self) && no_effects(fx),
            epoch == old(self).epoch_spec(kind) ==> match kind {
                TimerKind::Delivery | TimerKind::Retry => delivery_outcome(old(self).disarmed(kind), *final(self), fx, blocked, ready),
                TimerKind::Acknowledgement => acknowledgement_outcome(old(self).disarmed(kind), *final(self), fx, blocked),
                TimerKind::Lease => lease_outcome(old(self).disarmed(kind), *final(self), fx),
            },
            epoch == old(self).epoch_spec(kind) && (kind == TimerKind::Delivery || kind == TimerKind::Retry) && (blocked
                || old(self).closed_spec() || old(self).delivering_spec()) ==> *final(self) == old(self).disarmed(kind)
                && no_effects(fx),
    {
        let mut fx = Effects::none();
        match kind {
            TimerKind::Delivery => {
                if epoch != self.delivery_epoch {
                    return fx;
                }
                self.delivery_armed = false;
                self.deliver(blocked, ready)
            },
            TimerKind::Retry => {
                if epoch != self.retry_epoch {
                    return fx;
                }
                self.retry_armed = false;
                self.deliver(blocked, ready)
            },
            TimerKind::Acknowledgement => {
                if epoch != self.acknowledgement_epoch {
                    return fx;
                }
                self.acknowledgement_armed = false;
                self.on_acknowledgement_timeout(blocked, &mut fx);
                fx
            },
            TimerKind::Lease => {
                if epoch != self.lease_epoch {
                    return fx;
                }
                self.lease_armed = false;
                self.on_lease_tick(&mut fx);
                fx
            },
        }
    }

    /// Mark several Work items delivered, one after another as
    /// [`AnnouncementQueue::confirm`] does.
    pub fn confirm_many(&mut self, work_ids: &[String]) -> (fx: Effects)
        requires
            old(self).wf(),
        ensures
            final(self).wf(),
            final(self).config_spec() == old(self).config_spec(),
            final(self).sequence_spec() == old(self).sequence_spec(),
            final(self).generation_spec() == old(self).generation_spec(),
            final(self).closed_spec() == old(self).closed_spec(),
            final(self).delivering_spec() == old(self).delivering_spec(),
            forall|i: int| 0 <= i < work_ids@.len() ==> !has_key(final(self).pending_spec(), (#[trigger] work_ids@[i])@),
            forall|k: int| 0 <= k < fx.delivered@.len() ==> holds_id(work_ids@, (#[trigger] fx.delivered@[k])@),
            fx.renew@.len() == 0 && fx.release@.len() == 0 && fx.speak is None,
            exists|trace: Seq<AnnouncementQueue>, outs: Seq<Seq<Seq<char>>>|
                #[trigger] confirm_trace(*old(self), string_views(work_ids@), *final(self), string_views(fx.delivered@), trace, outs),
    {
        let mut fx = Effects::none();
        let mut i: usize = 0;
        let ghost mut trace: Seq<AnnouncementQueue> = seq![*self];
        let ghost mut outs: Seq<Seq<Seq<char>>> = Seq::empty();
        proof {
            assert(string_views(fx.delivered@) =~= concat_outs(outs));
        }
        while i < work_ids.len()
            invariant
                self.wf(),
                i <= work_ids@.len(),
                trace.len() == i + 1,
                outs.len() == i,
                trace[0] == *old(self),
                trace[i as int] == *self,
                forall|m: int| 0 <= m < i ==> #[trigger] confirm_step(trace[m], work_ids@[m]@, trace[m + 1], outs[m]),
                string_views(fx.delivered@) == concat_outs(outs),
                self.config == old(self).config,
                self.sequence == old(self).sequence,
                self.delivery_generation == old(self).delivery_generation,
                self.closed == old(self).closed,
                self.delivering == old(self).delivering,
                forall|m: int| 0 <= m < i ==> !has_key(self.pending_spec(), (#[trigger] work_ids@[m])@),
                forall|k: int| 0 <= k < fx.delivered@.len() ==> holds_id(work_ids@, (#[trigger] fx.delivered@[k])@),
                fx.renew@.len() == 0 && fx.release@.len() == 0 && fx.speak is None,
            decreases work_ids.len() - i,
        {
            let ghost before = self.pending_spec();
            let ghost delivered_before = fx.delivered@;
            let ghost pre = *self;
            self.confirm_into(work_ids[i].as_str(), &mut fx);
            proof {
                let out = if tracks_id(pre, work_ids@[i as int]@) { seq![work_ids@[i as int]@] } else { Seq::<Seq<char>>::empty() };
                assert(confirm_step(pre, work_ids@[i as int]@, *self, out));
                assert(string_views(fx.delivered@) =~= string_views(delivered_before) + out);
                let outs2 = outs.push(out);
                assert(outs2.drop_last() =~= outs);
                assert(string_views(fx.delivered@) == concat_outs(outs2));
                let trace2 = trace.push(*self);
                assert forall|m: int| 0 <= m < i + 1 implies #[trigger] confirm_step(trace2[m], work_ids@[m]@, trace2[m + 1], outs2[m]) by {
                    if m < i {
                        assert(trace2[m] == trace[m] && trace2[m + 1] == trace[m + 1] && outs2[m] == outs[m]);
                    }
                }
                trace = trace2;
                outs = outs2;
                assert forall|m: int| 0 <= m < i + 1 implies !has_key(self.pending_spec(), (#[trigger] work_ids@[m])@) by {
                    if m < i {
                        lemma_remove_keeps_absent(before, work_ids@[i as int]@, work_ids@[m]@);
                    }
                }
                lemma_views_extend(fx.delivered@, delivered_before, work_ids@[i as int]@);
                assert(holds_id(work_ids@, work_ids@[i as int]@));
                assert forall|k: int| 0 <= k < fx.delivered@.len() implies holds_id(work_ids@, (#[trigger] fx.delivered@[k])@) by {
                    if k < delivered_before.len() && fx.delivered@[k]@ == delivered_before[k]@ {
                        assert(holds_id(work_ids@, delivered_before[k]@));
                    }
                }
            }
            i = i + 1;
        }
        proof {
            assert(string_views(work_ids@).len() == work_ids@.len());
            assert forall|m: int| 0 <= m < work_ids@.len() implies #[trigger] confirm_step(trace[m], string_views(work_ids@)[m], trace[m + 1], outs[m]) by {
                assert(string_views(work_ids@)[m] == work_ids@[m]@);
            }
            assert(confirm_trace(*old(self), string_views(work_ids@), *self, string_views(fx.delivered@), trace, outs));
        }
        fx
    }

    /// Mark the whole active batch delivered: on barge-in the user cut the
    /// announcement off, which counts as having heard it.
    pub fn dismiss_active(&mut self) -> (fx: Effects)
        requires
            old(self).wf(),
        ensures
            final(self).wf(),
            final(self).config_spec() == old(self).config_spec(),
            final(self).sequence_spec() == old(self).sequence_spec(),
            final(self).generation_spec() == old(self).generation_spec(),
            final(self).closed_spec() == old(self).closed_spec(),
            old(self).active_spec() is None ==> *final(self) == *old(self) && no_effects(fx),
            old(self).active_spec() matches Some(b) ==> ({
                &&& final(self).active_spec() is None
                &&& forall|k: int| 0 <= k < fx.delivered@.len() ==> holds_id(b.work_ids@, (#[trigger] fx.delivered@[k])@)
                &&& forall|i: int| 0 <= i < b.work_ids@.len() ==> !has_key(final(self).pending_spec(), (#[trigger] b.work_ids@[i])@)
                &&& exists|trace: Seq<AnnouncementQueue>, outs: Seq<Seq<Seq<char>>>|
                    #[trigger] confirm_trace(*old(self), string_views(b.work_ids@), *final(self), string_views(fx.delivered@), trace, outs)
            }),
            fx.renew@.len() == 0 && fx.release@.len() == 0 && fx.speak is None,
    {
        let mut fx = Effects::none();
        let ids = match &self.active {
            Some(b) => clone_strings(&b.work_ids),
            None => {
                return fx;
            },
        };
        let ghost b0 = self.active->0;
        let mut i: usize = 0;
        let ghost mut trace: Seq<AnnouncementQueue> = seq![*self];
        let ghost mut outs: Seq<Seq<Seq<char>>> = Seq::empty();
        proof {
            assert(string_views(fx.delivered@) =~= concat_outs(outs));
        }
        while i < ids.len()
            invariant
                self.wf(),
                trace.len() == i + 1,
                outs.len() == i,
                trace[0] == *old(self),
                trace[i as int] == *self,
                forall|m: int| 0 <= m < i ==> #[trigger] confirm_step(trace[m], ids@[m]@, trace[m + 1], outs[m]),
                string_views(fx.delivered@) == concat_outs(outs),
                ids@ == b0.work_ids@,
                i <= ids@.len(),
                self.config == old(self).config,
                self.sequence == old(self).sequence,
                self.delivery_generation == old(self).delivery_generation,
                self.closed == old(self).closed,
                self.active matches Some(c) ==> c.work_ids@ == ids@ && forall|m: int| 0 <= m < i ==> holds_id(c.acknowledged@, (#[trigger] ids@[m])@),
                forall|m: int| 0 <= m < i ==> !has_key(self.pending_spec(), (#[trigger] ids@[m])@),
                forall|k: int| 0 <= k < fx.delivered@.len() ==> holds_id(ids@, (#[trigger] fx.delivered@[k])@),
                fx.renew@.len() == 0 && fx.release@.len() == 0 && fx.speak is None,
            decreases ids.len() - i,
        {
            let ghost before = self.pending_spec();
            let ghost active_before = self.active;
            let ghost delivered_before = fx.delivered@;
            let ghost pre = *self;
            self.confirm_into(ids[i].as_str(), &mut fx);
            proof {
                let out = if tracks_id(pre, ids@[i as int]@) { seq![ids@[i as int]@] } else { Seq::<Seq<char>>::empty() };
                assert(confirm_step(pre, ids@[i as int]@, *self, out));
                assert(string_views(fx.delivered@) =~= string_views(delivered_before) + out);
                let outs2 = outs.push(out);
                assert(outs2.drop_last() =~= outs);
                assert(string_views(fx.delivered@) == concat_outs(outs2));
                let trace2 = trace.push(*self);
                assert forall|m: int| 0 <= m < i + 1 implies #[trigger] confirm_step(trace2[m], ids@[m]@, trace2[m + 1], outs2[m]) by {
                    if m < i {
                        assert(trace2[m] == trace[m] && trace2[m + 1] == trace[m + 1] && outs2[m] == outs[m]);
                    }
                }
                trace = trace2;
                outs = outs2;
                assert(holds_id(ids@, ids@[i as int]@));
                if let Some(c) = active_before {
                    let ghost after = self.active;
                    if let Some(c2) = after {
                        lemma_acknowledged_after(c, c2, ids@[i as int]@);
                        assert forall|m: int| 0 <= m < i + 1 implies holds_id(c2.acknowledged@, (#[trigger] ids@[m])@) by {
                            if m < i {
                                assert(holds_id(c.acknowledged@, ids@[m]@));
                            }
                        }
                    }
                }
                assert forall|m: int| 0 <= m < i + 1 implies !has_key(self.pending_spec(), (#[trigger] ids@[m])@) by {
                    if m < i {
                        lemma_remove_keeps_absent(before, ids@[i as int]@, ids@[m]@);
                    }
                }
                lemma_views_extend(fx.delivered@, delivered_before, ids@[i as int]@);
                assert forall|k: int| 0 <= k < fx.delivered@.len() implies holds_id(ids@, (#[trigger] fx.delivered@[k])@) by {
                    if k < delivered_before.len() && fx.delivered@[k]@ == delivered_before[k]@ {
                        assert(holds_id(ids@, delivered_before[k]@));
                    }
                }
            }
            i = i + 1;
        }
        proof {
            assert(string_views(ids@).len() == ids@.len());
            assert forall|m: int| 0 <= m < ids@.len() implies #[trigger] confirm_step(trace[m], string_views(ids@)[m], trace[m + 1], outs[m]) by {
                assert(string_views(ids@)[m] == ids@[m]@);
            }
            assert(confirm_trace(*old(self), string_views(b0.work_ids@), *self, string_views(fx.delivered@), trace, outs));
            let ghost last = self.active;
            if let Some(c) = last {
                assert(c.fully_acknowledged_spec());
            }
        }
        fx
    }
}

/// Whether the queue `q` tracks `id`: queued, or in the active batch.
pub open spec fn tracks_id(q: AnnouncementQueue, id: Seq<char>) -> bool {
    has_key(q.pending_spec(), id) || (q.active_spec() matches Some(b) && holds_id(b.work_ids@, id))
}

/// One playback receipt for `id`, from `pre` to `post`, delivering `out`:
/// the id leaves the queue and the active batch counts it acknowledged; its
/// notification is delivered exactly when the queue tracked it.
pub open spec fn confirm_step(pre: AnnouncementQueue, id: Seq<char>, post: AnnouncementQueue, out: Seq<Seq<char>>) -> bool {
    &&& post.pending_spec() == seq_remove_entry(pre.pending_spec(), id)
    &&& post.sequence_spec() == pre.sequence_spec()
    &&& post.generation_spec() == pre.generation_spec()
    &&& post.closed_spec() == pre.closed_spec()
    &&& out == (if tracks_id(pre, id) { seq![id] } else { Seq::<Seq<char>>::empty() })
    &&& pre.active_spec() is None ==> post.active_spec() is None
    &&& pre.active_spec() matches Some(b) ==> (match post.active_spec() {
        Some(c) => same_batch(b, c) && string_views(c.acknowledged@) == acknowledged_after(b, id)
            && !c.fully_acknowledged_spec(),
        None => post.retry_count_spec() == 0,
    })
}

/// The notifications delivered over several steps, in order.
pub open spec fn concat_outs(outs: Seq<Seq<Seq<char>>>) -> Seq<Seq<char>>
    decreases outs.len(),
{
    if outs.len() == 0 {
        Seq::empty()
    } else {
        concat_outs(outs.drop_last()) + outs.last()
    }
}

/// Receipts for `ids`, one after another, take `pre` to `post` through the
/// states `trace` and deliver `out`: each step is a [`confirm_step`].
pub open spec fn confirm_trace(
    pre: AnnouncementQueue,
    ids: Seq<Seq<char>>,
    post: AnnouncementQueue,
    out: Seq<Seq<char>>,
    trace: Seq<AnnouncementQueue>,
    outs: Seq<Seq<Seq<char>>>,
) -> bool {
    &&& trace.len() == ids.len() + 1
    &&& outs.len() == ids.len()
    &&& trace[0] == pre
    &&& trace[ids.len() as int] == post
    &&& forall|i: int| 0 <= i < ids.len() ==> #[trigger] confirm_step(trace[i], ids[i], trace[i + 1], outs[i])
    &&& out == concat_outs(outs)
}

/// Whether a batch is fully acknowledged depends on its Work ids and
/// acknowledgements alone.
proof fn lemma_same_acknowledgement(b: Batch, c: Batch)
    requires
        b.work_ids == c.work_ids,
        b.acknowledged == c.acknowledged,
    ensures
        b.fully_acknowledged_spec() == c.fully_acknowledged_spec(),
{
}

/// `a` is `b`, perhaps with `x` added: each element of `a` is the one of
/// `b` at its place, or `x`.
proof fn lemma_views_extend(a: Seq<String>, b: Seq<String>, x: Seq<char>)
    requires
        string_views(a) == string_views(b).push(x) || string_views(a) == string_views(b),
    ensures
        forall|k: int| 0 <= k < a.len() ==> (k < b.len() && (#[trigger] a[k])@ == b[k]@) || a[k]@ == x,
{
    assert(string_views(a).len() == a.len() && string_views(b).len() == b.len());
    assert forall|k: int| 0 <= k < a.len() implies (k < b.len() && (#[trigger] a[k])@ == b[k]@) || a[k]@ == x by {
        assert(string_views(a)[k] == a[k]@);
        if k < b.len() {
            assert(string_views(b)[k] == b[k]@);
        }
    }
}

/// Removing one key leaves absent any key that was absent.
proof fn lemma_remove_keeps_absent(p: Seq<(Seq<char>, Announcement)>, k: Seq<char>, x: Seq<char>)
    requires
        !has_key(p, x),
    ensures
        !has_key(seq_remove_entry(p, k), x),
{
    if has_key(seq_remove_entry(p, k), x) {
        let r = seq_remove_entry(p, k);
        let j = choose|j: int| 0 <= j < r.len() && r[j].0 == x;
        if has_key(p, k) {
            let i = crate::strmap::key_index(p, k);
            if j < i {
                assert(r[j] == p[j]);
            } else {
                assert(r[j] == p[j + 1]);
            }
        }
    }
}

} // verus!
