//! Response lifecycle and response context.
//!
//! Any of the twenty output events proves a response exists, provided it
//! carries an id; and a later delta with no correlation metadata must never
//! reset the correlation an earlier event established.

use vstd::prelude::*;
use crate::chars::{chars_of, push_str, str_eq, string_from_chars};
use crate::text::{trim_seq, trimmed};
use indexmap::IndexMap;
use crate::imap::{response_context_entries, response_context_map_index_of, response_context_map_insert, response_context_map_len, response_context_map_new, response_context_map_shift_remove, response_context_map_value_at};
use crate::strmap::{distinct_keys, has_key, lemma_insert_entry, lemma_key_index, seq_insert_entry, seq_remove_entry, value_of};

verus! {

/// Where a response came from.
#[derive(Clone, Copy, Debug, Default, PartialEq, Eq, Hash)]
pub enum ResponseOrigin {
    /// The realtime model's own turn.
    #[default]
    Model,
    /// A finished Work's result, presented through the Injection Gate.
    Announcement,
    /// A backend permission question.
    Permission,
    /// A delegated project's start announcement, or a tool follow-up.
    Agent,
    /// A background task's progress update.
    Progress,
}

/// The wire spelling of an origin.
pub open spec fn origin_wire(origin: ResponseOrigin) -> Seq<char> {
    match origin {
        ResponseOrigin::Model => "model"@,
        ResponseOrigin::Announcement => "announcement"@,
        ResponseOrigin::Permission => "permission"@,
        ResponseOrigin::Agent => "agent"@,
        ResponseOrigin::Progress => "progress"@,
    }
}

impl ResponseOrigin {
    /// The wire spelling.
    pub fn as_str(self) -> (r: &'static str)
        ensures
            r@ == origin_wire(self),
    {
        match self {
            ResponseOrigin::Model => "model",
            ResponseOrigin::Announcement => "announcement",
            ResponseOrigin::Permission => "permission",
            ResponseOrigin::Agent => "agent",
            ResponseOrigin::Progress => "progress",
        }
    }

    /// Parse a wire spelling.
    pub fn from_wire(value: &str) -> (r: Option<Self>)
        ensures
            r matches Some(o) ==> origin_wire(o) == value@,
            r is None ==> forall|o: ResponseOrigin| origin_wire(o) != value@,
    {
        if str_eq(value, "model") {
            Some(ResponseOrigin::Model)
        } else if str_eq(value, "announcement") {
            Some(ResponseOrigin::Announcement)
        } else if str_eq(value, "permission") {
            Some(ResponseOrigin::Permission)
        } else if str_eq(value, "agent") {
            Some(ResponseOrigin::Agent)
        } else if str_eq(value, "progress") {
            Some(ResponseOrigin::Progress)
        } else {
            None
        }
    }
}

/// Every origin's wire spelling parses back to it.
pub proof fn lemma_origin_round_trip(a: ResponseOrigin, b: ResponseOrigin)
    ensures
        origin_wire(a) == origin_wire(b) ==> a == b,
{
    reveal_strlit("model");
    reveal_strlit("announcement");
    reveal_strlit("permission");
    reveal_strlit("agent");
    reveal_strlit("progress");
    if a != b {
        assert(origin_wire(a).len() != origin_wire(b).len() || origin_wire(a)[0] != origin_wire(b)[0]);
    }
}

/// The twenty server event types that prove a Realtime response exists, in
/// the catalogued order; both the beta and the GA spellings.
pub const RESPONSE_ACTIVITY_TYPES: [&'static str; 20] = [
    "response.created",
    "response.done",
    "response.output_item.added",
    "response.output_item.done",
    "response.content_part.added",
    "response.content_part.done",
    "response.function_call_arguments.delta",
    "response.function_call_arguments.done",
    "response.audio.delta",
    "response.audio.done",
    "response.output_audio.delta",
    "response.output_audio.done",
    "response.audio_transcript.delta",
    "response.audio_transcript.done",
    "response.output_audio_transcript.delta",
    "response.output_audio_transcript.done",
    "response.text.delta",
    "response.text.done",
    "response.output_text.delta",
    "response.output_text.done",
];

/// The three `response.done` statuses that mean the response did not land.
pub const RESPONSE_FAILURE_STATUSES: [&'static str; 3] = ["failed", "cancelled", "incomplete"];

/// The two streaming input-transcript event names.
pub const STREAMING_INPUT_TRANSCRIPT_EVENTS: [&'static str; 2] = [
    "conversation.item.input_audio_transcription.delta",
    "conversation.item.input_audio_transcription.text",
];

/// The four input-side events that also count as activity for sleep.
pub const SLEEP_INPUT_EVENTS: [&'static str; 4] = [
    "input_audio_buffer.speech_started",
    "input_audio_buffer.speech_stopped",
    "conversation.item.input_audio_transcription.delta",
    "conversation.item.input_audio_transcription.completed",
];

/// Whether `s` is one of the strings of `list`.
pub open spec fn listed<const N: usize>(list: [&'static str; N], s: Seq<char>) -> bool {
    exists|i: int| 0 <= i < N && (#[trigger] list@[i])@ == s
}

fn is_listed<const N: usize>(list: &[&'static str; N], s: &str) -> (r: bool)
    ensures
        r == listed(*list, s@),
{
    let mut i: usize = 0;
    while i < N
        invariant
            i <= N,
            forall|j: int| 0 <= j < i ==> (#[trigger] list@[j])@ != s@,
        decreases N - i,
    {
        if str_eq(list[i], s) {
            return true;
        }
        i = i + 1;
    }
    false
}

/// A normalized server event, as the gateway sees it after the protocol
/// adapter has run. Only the fields the voice layer reads are named.
#[derive(Clone, Debug, Default, PartialEq)]
pub struct ServerEvent {
    /// The `type` discriminator.
    pub event_type: String,
    /// `event.response_id`.
    pub response_id: Option<String>,
    /// `event.response.id`.
    pub response_object_id: Option<String>,
    /// `event.item.response_id`.
    pub item_response_id: Option<String>,
    /// `event.item_id` — the conversation item, not the response.
    pub item_id: Option<String>,
    /// `event.response.status`.
    pub response_status: Option<String>,
    /// `event.delta`.
    pub delta: Option<String>,
    /// `event.text` — the streaming input-transcript body.
    pub text: Option<String>,
    /// `event.stash` — the streaming input-transcript tail.
    pub stash: Option<String>,
    /// `event.transcript`.
    pub transcript: Option<String>,
    /// `event.reason`, e.g. `turn_invalid`.
    pub reason: Option<String>,
    /// `event.__voiceOrigin`, attached by the frontend on correlation.
    pub voice_origin: Option<ResponseOrigin>,
    /// `event.__voiceContext`, attached by the frontend on correlation.
    pub voice_context: Option<CorrelatedContext>,
    /// `event.__voiceRetried` — the frontend transparently replayed this
    /// refusal.
    pub voice_retried: bool,
}

/// The view of an optional string, empty when absent.
pub open spec fn opt_view(s: Option<String>) -> Seq<char> {
    match s {
        Some(v) => v@,
        None => Seq::empty(),
    }
}

impl ServerEvent {
    /// `response_id || response.id || item.response_id || ''`.
    pub open spec fn response_id_spec(&self) -> Seq<char> {
        if opt_view(self.response_id).len() > 0 {
            opt_view(self.response_id)
        } else if opt_view(self.response_object_id).len() > 0 {
            opt_view(self.response_object_id)
        } else {
            opt_view(self.item_response_id)
        }
    }

    /// Whether this event proves a response exists: an id **and** an
    /// activity type.
    pub open spec fn is_response_activity_spec(&self) -> bool {
        self.response_id_spec().len() > 0 && listed(RESPONSE_ACTIVITY_TYPES, self.event_type@)
    }

    /// An event of `event_type` with nothing else set.
    pub fn new(event_type: &str) -> (r: Self)
        ensures
            r.event_type@ == event_type@,
            r.response_id is None,
            r.response_object_id is None,
            r.item_response_id is None,
            r.item_id is None,
            r.response_status is None,
            r.delta is None,
            r.text is None,
            r.stash is None,
            r.transcript is None,
            r.reason is None,
            r.voice_origin is None,
            r.voice_context is None,
            !r.voice_retried,
    {
        ServerEvent {
            event_type: event_type.to_owned(),
            response_id: None,
            response_object_id: None,
            item_response_id: None,
            item_id: None,
            response_status: None,
            delta: None,
            text: None,
            stash: None,
            transcript: None,
            reason: None,
            voice_origin: None,
            voice_context: None,
            voice_retried: false,
        }
    }

    /// The response id, by the catalogued resolution order; an empty value
    /// is skipped, not returned.
    pub fn realtime_response_id(&self) -> (r: &str)
        ensures
            r@ == self.response_id_spec(),
    {
        if let Some(v) = &self.response_id {
            if !v.as_str().is_empty() {
                return v.as_str();
            }
        }
        if let Some(v) = &self.response_object_id {
            if !v.as_str().is_empty() {
                return v.as_str();
            }
        }
        if let Some(v) = &self.item_response_id {
            if !v.as_str().is_empty() {
                return v.as_str();
            }
        }
        proof {
            reveal_strlit("");
        }
        ""
    }

    /// Whether this event proves a response exists.
    pub fn is_response_activity(&self) -> (r: bool)
        ensures
            r == self.is_response_activity_spec(),
    {
        let id = self.realtime_response_id();
        !id.is_empty() && is_listed(&RESPONSE_ACTIVITY_TYPES, self.event_type.as_str())
    }

    /// Whether this `response.done` failed.
    pub fn response_failed(&self) -> (r: bool)
        ensures
            r == (match self.response_status {
                Some(s) => listed(RESPONSE_FAILURE_STATUSES, s@),
                None => false,
            }),
    {
        match &self.response_status {
            Some(s) => is_listed(&RESPONSE_FAILURE_STATUSES, s.as_str()),
            None => false,
        }
    }

    /// The running input transcript carried by a streaming ASR event:
    /// `` `${text}${stash}`.trim() ``, and empty for any other event type.
    pub fn streaming_input_transcript(&self) -> (r: String)
        ensures
            r@ == (if listed(STREAMING_INPUT_TRANSCRIPT_EVENTS, self.event_type@) {
                trim_seq(opt_view(self.text) + opt_view(self.stash))
            } else {
                Seq::empty()
            }),
    {
        if !is_listed(&STREAMING_INPUT_TRANSCRIPT_EVENTS, self.event_type.as_str()) {
            return String::new();
        }
        let mut joined: Vec<char> = Vec::new();
        if let Some(t) = &self.text {
            push_str(&mut joined, t.as_str());
        }
        if let Some(s) = &self.stash {
            push_str(&mut joined, s.as_str());
        }
        assert(joined@ =~= opt_view(self.text) + opt_view(self.stash));
        let s = string_from_chars(&joined);
        trimmed(s.as_str())
    }

    /// Whether this event should postpone the sleep timer: every response
    /// activity event, plus the four input-side events.
    pub fn is_sleep_activity(&self) -> (r: bool)
        ensures
            r == (self.is_response_activity_spec() || listed(SLEEP_INPUT_EVENTS, self.event_type@)),
    {
        self.is_response_activity() || is_listed(&SLEEP_INPUT_EVENTS, self.event_type.as_str())
    }
}

/// The correlation metadata a provider echoes back on `response.created` /
/// `response.done`. `None` means the provider echoed nothing for the field.
#[derive(Clone, Debug, Default, PartialEq, Eq)]
pub struct CorrelatedContext {
    /// The turn this response answers.
    pub turn_id: Option<String>,
    /// The single Work, when there is exactly one.
    pub task_id: Option<Option<String>>,
    /// Every Work in an announcement batch.
    pub task_ids: Option<Vec<String>>,
    /// Every turn in an announcement batch.
    pub turn_ids: Option<Vec<String>>,
    /// The permission this response is asking about.
    pub authorization_id: Option<Option<String>>,
    /// The turn generation, for staleness.
    pub turn_generation: Option<i64>,
    /// The announcement batch's sequence number.
    pub delivery_sequence: Option<Option<u64>>,
    /// Whether answering this response also discharges a Work notification.
    pub consumes_task_notification: Option<bool>,
}

/// A transcript fragment held until the client reports playback started.
#[derive(Clone, Debug, PartialEq, Eq)]
pub struct PendingTranscript {
    /// The fragment.
    pub content: String,
    /// Whether this is the settled transcript rather than a delta.
    pub final_fragment: bool,
}

/// One in-flight response's accrued state.
#[derive(Clone, Debug, PartialEq)]
pub struct ResponseContext {
    /// The turn this response answers.
    pub turn_id: String,
    /// The single correlated Work.
    pub task_id: Option<String>,
    /// Every Work in an announcement batch.
    pub task_ids: Vec<String>,
    /// Every turn in an announcement batch.
    pub turn_ids: Vec<String>,
    /// The permission being asked about.
    pub authorization_id: Option<String>,
    /// Where this response came from.
    pub origin: ResponseOrigin,
    /// The turn generation. `-1` until something correlates it.
    pub turn_generation: i64,
    /// The announcement batch's sequence number.
    pub delivery_sequence: Option<u64>,
    /// Whether answering this also discharges a Work notification.
    pub consumes_task_notification: bool,
    /// The client reported playback started.
    pub playback_started: bool,
    /// The client reported playback ended.
    pub playback_ended: bool,
    /// The provider reported `response.done`.
    pub response_done: bool,
    /// The transcript reached its `.done`.
    pub transcript_done: bool,
    /// The response emitted at least one audio delta.
    pub has_audio: bool,
    /// The response authored at least one tool call.
    pub has_function_call: bool,
    /// The response was cancelled; it survives as a short-lived tombstone.
    pub suppressed: bool,
    /// Whether `response.started` has been announced to the client.
    pub response_started: bool,
    /// The final assistant transcript, for the response guards.
    pub assistant_transcript: String,
    /// Transcript fragments held until playback actually starts.
    pub pending_transcripts: Vec<PendingTranscript>,
}

/// The initial context: nothing correlated, nothing played.
pub open spec fn empty_context_spec(c: ResponseContext) -> bool {
    &&& c.turn_id@ == Seq::<char>::empty()
    &&& c.task_id is None
    &&& c.task_ids@.len() == 0
    &&& c.turn_ids@.len() == 0
    &&& c.authorization_id is None
    &&& c.origin == ResponseOrigin::Model
    &&& c.turn_generation == 0
    &&& c.delivery_sequence is None
    &&& !c.consumes_task_notification
    &&& !c.playback_started
    &&& !c.playback_ended
    &&& !c.response_done
    &&& !c.transcript_done
    &&& !c.has_audio
    &&& !c.has_function_call
    &&& !c.suppressed
    &&& !c.response_started
    &&& c.assistant_transcript@ == Seq::<char>::empty()
    &&& c.pending_transcripts@.len() == 0
}

impl ResponseContext {
    /// A context with nothing correlated and nothing played.
    pub fn empty() -> (r: Self)
        ensures
            empty_context_spec(r),
    {
        ResponseContext {
            turn_id: String::new(),
            task_id: None,
            task_ids: Vec::new(),
            turn_ids: Vec::new(),
            authorization_id: None,
            origin: ResponseOrigin::Model,
            turn_generation: 0,
            delivery_sequence: None,
            consumes_task_notification: false,
            playback_started: false,
            playback_ended: false,
            response_done: false,
            transcript_done: false,
            has_audio: false,
            has_function_call: false,
            suppressed: false,
            response_started: false,
            assistant_transcript: String::new(),
            pending_transcripts: Vec::new(),
        }
    }

    /// Whether every terminal signal has arrived: playback ended **and**
    /// `response.done` **and** the transcript is done.
    pub fn is_complete(&self) -> (r: bool)
        ensures
            r == (self.playback_ended && self.response_done && self.transcript_done),
    {
        self.playback_ended && self.response_done && self.transcript_done
    }

    /// The Work ids this response carries: the batch list when there is one,
    /// otherwise the single id, otherwise nothing.
    pub fn task_ids(&self) -> (r: Vec<String>)
        ensures
            self.task_ids@.len() > 0 ==> r@ == self.task_ids@,
            self.task_ids@.len() == 0 ==> r@ == (match self.task_id {
                Some(t) => seq![t],
                None => Seq::<String>::empty(),
            }),
    {
        if self.task_ids.len() == 0 {
            let mut r: Vec<String> = Vec::new();
            if let Some(t) = &self.task_id {
                r.push(t.clone());
            }
            r
        } else {
            clone_strings(&self.task_ids)
        }
    }

    /// Whether the *start* of playback discharges a Work notification: an
    /// announcement always does; a model turn only when it consumed one.
    pub fn confirms_task_notification_on_playback_start(&self) -> (r: bool)
        ensures
            r == (self.origin == ResponseOrigin::Announcement || self.consumes_task_notification),
    {
        match self.origin {
            ResponseOrigin::Announcement => true,
            _ => self.consumes_task_notification,
        }
    }
}

impl Default for ResponseContext {
    fn default() -> (r: Self)
        ensures
            empty_context_spec(r),
    {
        ResponseContext::empty()
    }
}

/// A copy of a list of strings.
pub fn clone_strings(v: &Vec<String>) -> (r: Vec<String>)
    ensures
        r@ == v@,
{
    let mut r: Vec<String> = Vec::new();
    let mut i: usize = 0;
    while i < v.len()
        invariant
            i <= v@.len(),
            r@ == v@.take(i as int),
        decreases v.len() - i,
    {
        r.push(v[i].clone());
        i = i + 1;
        assert(r@ =~= v@.take(i as int));
    }
    assert(v@.take(v@.len() as int) =~= v@);
    r
}

fn clone_pending(v: &Vec<PendingTranscript>) -> (r: Vec<PendingTranscript>)
    ensures
        r@ == v@,
{
    let mut r: Vec<PendingTranscript> = Vec::new();
    let mut i: usize = 0;
    while i < v.len()
        invariant
            i <= v@.len(),
            r@ == v@.take(i as int),
        decreases v.len() - i,
    {
        r.push(PendingTranscript { content: v[i].content.clone(), final_fragment: v[i].final_fragment });
        i = i + 1;
        assert(r@ =~= v@.take(i as int));
    }
    assert(v@.take(v@.len() as int) =~= v@);
    r
}

fn clone_opt_string(v: &Option<String>) -> (r: Option<String>)
    ensures
        r == *v,
{
    match v {
        Some(s) => Some(s.clone()),
        None => None,
    }
}

/// Two contexts hold the same values, lists compared by their contents.
pub open spec fn same_context(a: ResponseContext, b: ResponseContext) -> bool {
    &&& a.turn_id == b.turn_id
    &&& a.task_id == b.task_id
    &&& a.task_ids@ == b.task_ids@
    &&& a.turn_ids@ == b.turn_ids@
    &&& a.authorization_id == b.authorization_id
    &&& a.origin == b.origin
    &&& a.turn_generation == b.turn_generation
    &&& a.delivery_sequence == b.delivery_sequence
    &&& a.consumes_task_notification == b.consumes_task_notification
    &&& a.playback_started == b.playback_started
    &&& a.playback_ended == b.playback_ended
    &&& a.response_done == b.response_done
    &&& a.transcript_done == b.transcript_done
    &&& a.has_audio == b.has_audio
    &&& a.has_function_call == b.has_function_call
    &&& a.suppressed == b.suppressed
    &&& a.response_started == b.response_started
    &&& a.assistant_transcript == b.assistant_transcript
    &&& a.pending_transcripts@ == b.pending_transcripts@
}

/// A copy of a response context.
pub fn clone_context(c: &ResponseContext) -> (r: ResponseContext)
    ensures
        same_context(r, *c),
{
    ResponseContext {
        turn_id: c.turn_id.clone(),
        task_id: clone_opt_string(&c.task_id),
        task_ids: clone_strings(&c.task_ids),
        turn_ids: clone_strings(&c.turn_ids),
        authorization_id: clone_opt_string(&c.authorization_id),
        origin: c.origin,
        turn_generation: c.turn_generation,
        delivery_sequence: c.delivery_sequence,
        consumes_task_notification: c.consumes_task_notification,
        playback_started: c.playback_started,
        playback_ended: c.playback_ended,
        response_done: c.response_done,
        transcript_done: c.transcript_done,
        has_audio: c.has_audio,
        has_function_call: c.has_function_call,
        suppressed: c.suppressed,
        response_started: c.response_started,
        assistant_transcript: c.assistant_transcript.clone(),
        pending_transcripts: clone_pending(&c.pending_transcripts),
    }
}

/// What one event contributes to a response's correlation: the whole
/// fallback on a first sighting, nothing of it on a later event; then
/// exactly the fields the provider echoed, and the origin when it echoed one.
pub open spec fn patch_spec(base: ResponseContext, event: ServerEvent, r: ResponseContext) -> bool {
    let c = event.voice_context;
    &&& r.turn_id == (match c { Some(x) => match x.turn_id { Some(t) => t, None => base.turn_id }, None => base.turn_id })
    &&& r.task_id == (match c { Some(x) => match x.task_id { Some(t) => t, None => base.task_id }, None => base.task_id })
    &&& r.task_ids@ == (match c { Some(x) => match x.task_ids { Some(t) => t@, None => base.task_ids@ }, None => base.task_ids@ })
    &&& r.turn_ids@ == (match c { Some(x) => match x.turn_ids { Some(t) => t@, None => base.turn_ids@ }, None => base.turn_ids@ })
    &&& r.authorization_id == (match c { Some(x) => match x.authorization_id { Some(t) => t, None => base.authorization_id }, None => base.authorization_id })
    &&& r.turn_generation == (match c { Some(x) => match x.turn_generation { Some(t) => t, None => base.turn_generation }, None => base.turn_generation })
    &&& r.delivery_sequence == (match c { Some(x) => match x.delivery_sequence { Some(t) => t, None => base.delivery_sequence }, None => base.delivery_sequence })
    &&& r.consumes_task_notification == (match c { Some(x) => match x.consumes_task_notification { Some(t) => t, None => base.consumes_task_notification }, None => base.consumes_task_notification })
    &&& r.origin == (match event.voice_origin { Some(o) => o, None => base.origin })
    &&& r.playback_started == base.playback_started
    &&& r.playback_ended == base.playback_ended
    &&& r.response_done == base.response_done
    &&& r.transcript_done == base.transcript_done
    &&& r.has_audio == base.has_audio
    &&& r.has_function_call == base.has_function_call
    &&& r.suppressed == base.suppressed
    &&& r.response_started == base.response_started
    &&& r.assistant_transcript == base.assistant_transcript
    &&& r.pending_transcripts@ == base.pending_transcripts@
}

/// The authoritative part of a response context, derived from one event.
/// `existing` decides whether the fallback applies at all.
pub fn response_activity_context_patch(
    existing: Option<&ResponseContext>,
    event: &ServerEvent,
    fallback: &ResponseContext,
) -> (r: ResponseContext)
    ensures
        existing is Some ==> exists|base: ResponseContext| empty_context_spec(base) && #[trigger] patch_spec(base, *event, r),
        existing is None ==> patch_spec(*fallback, *event, r),
{
    let mut patch = if existing.is_some() {
        ResponseContext::empty()
    } else {
        clone_context(fallback)
    };
    let ghost base = patch;
    if let Some(correlated) = &event.voice_context {
        if let Some(turn_id) = &correlated.turn_id {
            patch.turn_id = turn_id.clone();
        }
        if let Some(task_id) = &correlated.task_id {
            patch.task_id = clone_opt_string(task_id);
        }
        if let Some(task_ids) = &correlated.task_ids {
            patch.task_ids = clone_strings(task_ids);
        }
        if let Some(turn_ids) = &correlated.turn_ids {
            patch.turn_ids = clone_strings(turn_ids);
        }
        if let Some(authorization_id) = &correlated.authorization_id {
            patch.authorization_id = clone_opt_string(authorization_id);
        }
        if let Some(turn_generation) = correlated.turn_generation {
            patch.turn_generation = turn_generation;
        }
        if let Some(delivery_sequence) = correlated.delivery_sequence {
            patch.delivery_sequence = delivery_sequence;
        }
        if let Some(consumes) = correlated.consumes_task_notification {
            patch.consumes_task_notification = consumes;
        }
    }
    if let Some(origin) = event.voice_origin {
        patch.origin = origin;
    }
    assert(patch_spec(base, *event, patch));
    patch
}

/// A later event that echoes no correlation contributes nothing: not the
/// fallback's turn, not its origin.
pub proof fn lemma_uncorrelated_delta_patches_nothing(base: ResponseContext, event: ServerEvent, r: ResponseContext)
    requires
        empty_context_spec(base),
        patch_spec(base, event, r),
        event.voice_context is None,
        event.voice_origin is None,
    ensures
        empty_context_spec(r),
{
}

/// The in-flight responses' contexts, by response id, in insertion order.
pub struct ResponseContexts {
    map: IndexMap<String, ResponseContext>,
}

impl ResponseContexts {
    /// The contexts, oldest first.
    pub closed spec fn entries(&self) -> Seq<(Seq<char>, ResponseContext)> {
        response_context_entries(self.map)
    }

    /// No response id occurs twice.
    pub open spec fn wf(&self) -> bool {
        distinct_keys(self.entries())
    }

    /// No contexts.
    pub fn new() -> (r: Self)
        ensures
            r.wf(),
            r.entries().len() == 0,
    {
        ResponseContexts { map: response_context_map_new() }
    }

    /// How many contexts there are.
    pub fn len(&self) -> (r: usize)
        ensures
            r == self.entries().len(),
    {
        response_context_map_len(&self.map)
    }

    /// The context of response `id`.
    pub fn get(&self, id: &str) -> (r: Option<&ResponseContext>)
        requires
            self.wf(),
        ensures
            r is Some == has_key(self.entries(), id@),
            r matches Some(c) ==> *c == value_of(self.entries(), id@),
    {
        match response_context_map_index_of(&self.map, id) {
            Some(i) => {
                proof {
                    lemma_key_index(self.entries(), i as int);
                }
                Some(response_context_map_value_at(&self.map, i))
            },
            None => None,
        }
    }

    /// Forget response `id`'s context, keeping the order of the rest.
    pub fn remove(&mut self, id: &str) -> (r: Option<ResponseContext>)
        requires
            old(self).wf(),
        ensures
            final(self).wf(),
            final(self).entries() == seq_remove_entry(old(self).entries(), id@),
            r is Some == has_key(old(self).entries(), id@),
    {
        response_context_map_shift_remove(&mut self.map, id)
    }

    /// Bind response `id` to `context`.
    pub fn insert(&mut self, id: &str, context: ResponseContext)
        requires
            old(self).wf(),
        ensures
            final(self).wf(),
            final(self).entries() == seq_insert_entry(old(self).entries(), id@, context),
    {
        response_context_map_insert(&mut self.map, id.to_owned(), context);
    }
}

/// Make sure response `id` has a context, creating it as a copy of
/// `fallback` when it has none; an existing context is left as it is.
pub fn ensure_response_context(contexts: &mut ResponseContexts, id: &str, fallback: &ResponseContext)
    requires
        old(contexts).wf(),
    ensures
        final(contexts).wf(),
        has_key(old(contexts).entries(), id@) ==> final(contexts).entries() == old(contexts).entries(),
        !has_key(old(contexts).entries(), id@) ==> ({
            let added = final(contexts).entries().last();
            &&& final(contexts).entries() == old(contexts).entries().push(added)
            &&& added.0 == id@
            &&& same_context(added.1, *fallback)
        }),
{
    match contexts.get(id) {
        Some(_) => {},
        None => {
            let copy = clone_context(fallback);
            contexts.insert(id, copy);
        },
    }
}

/// The context after merging `authoritative` over `existing`: the
/// correlation is the authoritative one, but progress is preserved. Late
/// correlation must not un-play audio the client already started, or drop
/// transcript fragments still waiting for playback; the gateway-owned flags
/// only ever become true; and a blank authoritative transcript keeps the
/// existing one.
pub open spec fn merged_context(existing: ResponseContext, authoritative: ResponseContext, m: ResponseContext) -> bool {
    &&& m.turn_id == authoritative.turn_id
    &&& m.task_id == authoritative.task_id
    &&& m.task_ids@ == authoritative.task_ids@
    &&& m.turn_ids@ == authoritative.turn_ids@
    &&& m.authorization_id == authoritative.authorization_id
    &&& m.origin == authoritative.origin
    &&& m.turn_generation == authoritative.turn_generation
    &&& m.delivery_sequence == authoritative.delivery_sequence
    &&& m.consumes_task_notification == authoritative.consumes_task_notification
    &&& m.playback_started == existing.playback_started
    &&& m.playback_ended == existing.playback_ended
    &&& m.response_done == existing.response_done
    &&& m.transcript_done == existing.transcript_done
    &&& m.pending_transcripts@ == existing.pending_transcripts@
    &&& m.has_audio == (authoritative.has_audio || existing.has_audio)
    &&& m.has_function_call == (authoritative.has_function_call || existing.has_function_call)
    &&& m.suppressed == (authoritative.suppressed || existing.suppressed)
    &&& m.response_started == (authoritative.response_started || existing.response_started)
    &&& m.assistant_transcript == (if authoritative.assistant_transcript@.len() == 0 {
        existing.assistant_transcript
    } else {
        authoritative.assistant_transcript
    })
}

/// Merge `authoritative` over the context of response `id` (an empty
/// context when it has none), preserving progress.
pub fn merge_response_context(contexts: &mut ResponseContexts, id: &str, authoritative: ResponseContext)
    requires
        old(contexts).wf(),
    ensures
        final(contexts).wf(),
        has_key(final(contexts).entries(), id@),
        ({
            let m = value_of(final(contexts).entries(), id@);
            &&& final(contexts).entries() == seq_insert_entry(old(contexts).entries(), id@, m)
            &&& has_key(old(contexts).entries(), id@) ==> merged_context(value_of(old(contexts).entries(), id@), authoritative, m)
            &&& !has_key(old(contexts).entries(), id@) ==> (exists|e: ResponseContext| empty_context_spec(e) && merged_context(e, authoritative, m))
        }),
{
    let existing = match contexts.get(id) {
        Some(c) => clone_context(c),
        None => ResponseContext::empty(),
    };
    let merged = ResponseContext {
        turn_id: authoritative.turn_id,
        task_id: authoritative.task_id,
        task_ids: authoritative.task_ids,
        turn_ids: authoritative.turn_ids,
        authorization_id: authoritative.authorization_id,
        origin: authoritative.origin,
        turn_generation: authoritative.turn_generation,
        delivery_sequence: authoritative.delivery_sequence,
        consumes_task_notification: authoritative.consumes_task_notification,
        playback_started: existing.playback_started,
        playback_ended: existing.playback_ended,
        response_done: existing.response_done,
        transcript_done: existing.transcript_done,
        has_audio: authoritative.has_audio || existing.has_audio,
        has_function_call: authoritative.has_function_call || existing.has_function_call,
        suppressed: authoritative.suppressed || existing.suppressed,
        response_started: authoritative.response_started || existing.response_started,
        assistant_transcript: if authoritative.assistant_transcript.as_str().unicode_len() == 0 {
            existing.assistant_transcript
        } else {
            authoritative.assistant_transcript
        },
        pending_transcripts: existing.pending_transcripts,
    };
    let ghost m = merged;
    let ghost before = contexts.entries();
    contexts.insert(id, merged);
    proof {
        lemma_insert_entry(before, id@, m);
    }
}

} // verus!
