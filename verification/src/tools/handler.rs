//! The tool-call handler's decisions: which calls are answered at all, what
//! each tool decides from what the Work manager reports, and the three
//! bounded caches (answered calls, per-turn Work, deferred responses).
//!
//! Every answer is a receipt for intake, not a report of completion: the
//! model is holding a conversational turn open while it waits. The host
//! performs the Work-manager calls and writes the outputs; the decisions it
//! acts on are made here. The caches are insertion-ordered and evict
//! oldest-first.

use indexmap::{IndexMap, IndexSet};
use vstd::prelude::*;
use crate::chars::{chars_of, push_str, str_eq, string_from_chars};
use crate::imap::{
    deferred_batch_entries, deferred_batch_map_index_of, deferred_batch_map_insert, deferred_batch_map_len,
    deferred_batch_map_new, deferred_batch_map_shift_remove, deferred_batch_map_shift_remove_first,
    deferred_batch_map_value_at, distinct_strings, string_set_contains, string_set_entries, string_set_insert,
    string_set_len, string_set_new, string_set_shift_remove, string_set_shift_remove_first, work_id_entries,
    work_id_map_index_of, work_id_map_insert, work_id_map_len, work_id_map_new, work_id_map_shift_remove_first,
    work_id_map_value_at,
};
use crate::mode::ModePlan;
use crate::permission::PermissionDecision;
use crate::strmap::{distinct_keys, has_key, lemma_key_index, seq_insert_entry, value_of};
use crate::text::{trim, trim_seq};
use crate::tools::catalog::{
    CANCEL_AGENT_TASK, ENTER_SLEEP, GET_AGENT_TASK_STATUS, GET_CURRENT_TIME, MAX_NOTES_ITEMS, MEMORY, NOTES,
    RESPOND_AGENT_PERMISSION, SCHEDULE_REMINDER, SPAWN_THINKING,
};

verus! {

/// How many answered call ids are remembered, for idempotence.
pub const MAX_PROCESSED_CALLS: usize = 500;

/// How many turns keep their submitted Work id, for duplicate suppression.
pub const MAX_TURN_TASKS: usize = 100;

/// How many response ids may have deferred tool output at once.
pub const MAX_DEFERRED_RESPONSES: usize = 100;

/// The clip, in UTF-16 units, on an objective echoed back to the model.
pub const OBJECTIVE_CLIP: usize = 300;

/// The clip on an objective quoted inside a delegated status query.
pub const QUERY_OBJECTIVE_CLIP: usize = 200;

/// The clip on a completed Work's result.
pub const RESULT_CLIP: usize = 500;

/// The clip on the last activity's detail.
pub const ACTIVITY_DETAIL_CLIP: usize = 160;

/// How many Work items a full listing reports.
pub const LIST_ALL_CAP: usize = 20;

/// The scheduler priority a delegated status query is submitted at: high
/// enough to overtake ordinary queued Work, because the user is waiting.
pub const STATUS_QUERY_PRIORITY: i64 = 100;

/// The marker on an accepted delegation.
pub const THINKING_MARKER: &'static str = "[thinking]";

/// A Work item's lifecycle status.
#[derive(Clone, Copy, Debug, PartialEq, Eq, Structural)]
pub enum WorkStatus {
    /// Waiting for its scheduled time.
    Scheduled,
    /// Waiting for a slot.
    Queued,
    /// Running.
    Running,
    /// Handed to the backend.
    Delegated,
    /// Wrapping up.
    Finalizing,
    /// Finished with a result.
    Completed,
    /// Finished with an error.
    Failed,
    /// Cancelled.
    Cancelled,
    /// Any other status.
    Other,
}

/// The five statuses a cancellation without an id will target.
pub const CANCELLABLE_STATUSES: [WorkStatus; 5] = [
    WorkStatus::Scheduled,
    WorkStatus::Queued,
    WorkStatus::Running,
    WorkStatus::Delegated,
    WorkStatus::Finalizing,
];

/// Whether a Work item in `status` can still be cancelled.
pub open spec fn cancellable(status: WorkStatus) -> bool {
    status == WorkStatus::Scheduled || status == WorkStatus::Queued || status == WorkStatus::Running
        || status == WorkStatus::Delegated || status == WorkStatus::Finalizing
}

/// Whether a Work item in `status` can still be cancelled.
pub fn is_cancellable(status: WorkStatus) -> (r: bool)
    ensures
        r == cancellable(status),
{
    match status {
        WorkStatus::Scheduled | WorkStatus::Queued | WorkStatus::Running | WorkStatus::Delegated
        | WorkStatus::Finalizing => true,
        _ => false,
    }
}

/// Where a finished Work's notification stands.
#[derive(Clone, Copy, Debug, PartialEq, Eq, Structural)]
pub enum NotificationStatus {
    /// Not yet delivered.
    Pending,
    /// Being delivered.
    Delivering,
    /// Any other state.
    Other,
}

/// What the handler reads of one Work item.
#[derive(Clone, Debug, PartialEq, Eq)]
pub struct WorkSummary {
    /// The Work id.
    pub id: String,
    /// Its status.
    pub status: WorkStatus,
    /// Whether it is a control item (a status query about another Work).
    pub control: bool,
    /// The Work a control item is about.
    pub parent_work_id: Option<String>,
    /// The permission it is waiting on, if any.
    pub authorization_id: Option<String>,
    /// Whether that permission is still pending.
    pub authorization_pending: bool,
}

/// A cached view of whether the backend can take work.
pub trait BackendAvailability {
    /// Whether a backend is configured.
    fn configured(&self) -> bool;

    /// Whether it can take work.
    fn ok(&self) -> bool;

    /// Whether this answer rests on a completed probe: `false` means accept
    /// optimistically and let dispatch report failures.
    fn known(&self) -> bool;
}

/// The default when no probe is installed: configured, usable, and not
/// known. Optimistic on purpose: a gateway with no probe must not refuse
/// every delegation.
#[derive(Clone, Copy, Debug, Default)]
pub struct AssumeAvailable;

impl BackendAvailability for AssumeAvailable {
    fn configured(&self) -> (r: bool)
        ensures
            r,
    {
        true
    }

    fn ok(&self) -> (r: bool)
        ensures
            r,
    {
        true
    }

    fn known(&self) -> (r: bool)
        ensures
            !r,
    {
        false
    }
}

/// What a backend probe reported.
#[derive(Clone, Copy, Debug, Default, PartialEq, Eq)]
pub struct BackendState {
    /// Whether a backend is configured.
    pub configured: bool,
    /// Whether it can take work.
    pub ok: bool,
    /// Whether the answer rests on a completed probe.
    pub known: bool,
}

/// What a delegation was submitted with.
#[derive(Clone, Debug, PartialEq, Eq)]
pub struct DelegationRequest {
    /// The owner.
    pub owner_id: String,
    /// The session.
    pub session_id: String,
    /// The turn.
    pub turn_id: String,
    /// The model's objective, cleaned.
    pub objective: String,
    /// The attachments that travel with it.
    pub input_parts: Vec<crate::input::parts::InputPart>,
}

/// What a delegated-status query was submitted with.
#[derive(Clone, Debug, PartialEq, Eq)]
pub struct StatusQueryRequest {
    /// The owner.
    pub owner_id: String,
    /// The Work being asked about.
    pub parent_work_id: String,
    /// The user's question, or the default.
    pub question: String,
}

/// The client's environment, as the handler needs it.
#[derive(Clone, Debug, Default, PartialEq, Eq)]
pub struct ClientContext {
    /// The IANA zone the client reported.
    pub time_zone: String,
    /// The BCP-47 tag the client reported.
    pub locale: String,
    /// The client's launch directory.
    pub working_directory: String,
    /// The states the client declared, such as `sleeping`.
    pub states: Vec<String>,
}

impl ClientContext {
    /// Whether the client declared `state`.
    pub fn declares(&self, state: &str) -> (r: bool)
        ensures
            r == exists|i: int| 0 <= i < self.states@.len() && (#[trigger] self.states@[i])@ == state@,
    {
        let mut i: usize = 0;
        while i < self.states.len()
            invariant
                i <= self.states@.len(),
                forall|j: int| 0 <= j < i ==> (#[trigger] self.states@[j])@ != state@,
            decreases self.states.len() - i,
        {
            if str_eq(self.states[i].as_str(), state) {
                return true;
            }
            i = i + 1;
        }
        false
    }
}

/// One realtime function call, normalized.
#[derive(Clone, Debug, Default, PartialEq, Eq)]
pub struct ToolCall {
    /// The id the output must be written back against.
    pub call_id: String,
    /// The tool name.
    pub name: String,
    /// The raw JSON argument string.
    pub arguments: String,
    /// The response this call belongs to.
    pub response_id: String,
    /// The turn the response was correlated to.
    pub turn_id: Option<String>,
    /// That turn's generation.
    pub turn_generation: Option<i64>,
}

/// The turn the gateway has committed to, as the handler sees it.
#[derive(Clone, Debug, Default, PartialEq, Eq)]
pub struct CommittedTurn {
    /// The committed turn id.
    pub turn_id: String,
    /// Its generation.
    pub turn_generation: i64,
}

/// Whether `call` is for a turn the gateway has moved past: a generation
/// mismatch always is; a turn-id mismatch is only when both ids are
/// non-empty, since a call that arrived before a turn was committed has
/// nothing to be stale against.
pub open spec fn stale_spec(call: ToolCall, committed: CommittedTurn) -> bool {
    let generation = match call.turn_generation {
        Some(g) => g,
        None => committed.turn_generation,
    };
    let turn_id = match call.turn_id {
        Some(t) => t@,
        None => Seq::empty(),
    };
    generation != committed.turn_generation || (turn_id.len() > 0 && committed.turn_id@.len() > 0
        && turn_id != committed.turn_id@)
}

/// The turn a call is answered under: its own, when non-empty, otherwise
/// the committed one.
pub open spec fn call_turn_spec(call: ToolCall, committed: CommittedTurn) -> Seq<char> {
    match call.turn_id {
        Some(t) => if t@.len() > 0 { t@ } else { committed.turn_id@ },
        None => committed.turn_id@,
    }
}

/// The tools a call can name.
#[derive(Clone, Copy, Debug, PartialEq, Eq)]
pub enum ToolKind {
    /// `get_current_time`.
    GetCurrentTime,
    /// `memory`.
    Memory,
    /// `notes`.
    Notes,
    /// `schedule_reminder`.
    ScheduleReminder,
    /// `cancel_agent_task`.
    CancelAgentTask,
    /// `get_agent_task_status`.
    GetAgentTaskStatus,
    /// `respond_agent_permission`.
    RespondAgentPermission,
    /// `enter_sleep`.
    EnterSleep,
    /// `spawn_thinking`.
    SpawnThinking,
}

/// The tool a name designates.
pub open spec fn tool_kind_spec(name: Seq<char>) -> Option<ToolKind> {
    if name == GET_CURRENT_TIME@ {
        Some(ToolKind::GetCurrentTime)
    } else if name == MEMORY@ {
        Some(ToolKind::Memory)
    } else if name == NOTES@ {
        Some(ToolKind::Notes)
    } else if name == SCHEDULE_REMINDER@ {
        Some(ToolKind::ScheduleReminder)
    } else if name == CANCEL_AGENT_TASK@ {
        Some(ToolKind::CancelAgentTask)
    } else if name == GET_AGENT_TASK_STATUS@ {
        Some(ToolKind::GetAgentTaskStatus)
    } else if name == RESPOND_AGENT_PERMISSION@ {
        Some(ToolKind::RespondAgentPermission)
    } else if name == ENTER_SLEEP@ {
        Some(ToolKind::EnterSleep)
    } else if name == SPAWN_THINKING@ {
        Some(ToolKind::SpawnThinking)
    } else {
        None
    }
}

/// The tool a name designates.
pub fn tool_kind(name: &str) -> (r: Option<ToolKind>)
    ensures
        r == tool_kind_spec(name@),
{
    if str_eq(name, GET_CURRENT_TIME) {
        Some(ToolKind::GetCurrentTime)
    } else if str_eq(name, MEMORY) {
        Some(ToolKind::Memory)
    } else if str_eq(name, NOTES) {
        Some(ToolKind::Notes)
    } else if str_eq(name, SCHEDULE_REMINDER) {
        Some(ToolKind::ScheduleReminder)
    } else if str_eq(name, CANCEL_AGENT_TASK) {
        Some(ToolKind::CancelAgentTask)
    } else if str_eq(name, GET_AGENT_TASK_STATUS) {
        Some(ToolKind::GetAgentTaskStatus)
    } else if str_eq(name, RESPOND_AGENT_PERMISSION) {
        Some(ToolKind::RespondAgentPermission)
    } else if str_eq(name, ENTER_SLEEP) {
        Some(ToolKind::EnterSleep)
    } else if str_eq(name, SPAWN_THINKING) {
        Some(ToolKind::SpawnThinking)
    } else {
        None
    }
}

/// What the handler does with one call.
#[derive(Clone, Debug, PartialEq, Eq)]
pub enum Admission {
    /// The call carried no id and cannot be answered at all.
    MissingCallId,
    /// The call id was already answered.
    Duplicate,
    /// The turn moved on: close the call silently as superseded.
    Superseded {
        /// The turn the call is answered under.
        turn_id: String,
    },
    /// This session does not declare the tool: answer `unsupported_tool`.
    Unsupported {
        /// The turn the call is answered under.
        turn_id: String,
    },
    /// Run the tool.
    Run {
        /// Which tool.
        tool: ToolKind,
        /// The turn the call is answered under.
        turn_id: String,
    },
}

/// One response's deferred tool outputs.
#[derive(Clone, Debug, Default, PartialEq, Eq)]
pub struct DeferredBatch {
    /// Outputs still being written.
    pub pending: usize,
    /// The source response finished.
    pub source_done: bool,
    /// Some output failed.
    pub failed: bool,
    /// The model has nothing more to say.
    pub suppress_response: bool,
    /// The turn of the source response.
    pub turn_id: Option<String>,
    /// Its generation.
    pub turn_generation: Option<i64>,
}

/// The response to create once a deferred batch is flushed.
#[derive(Clone, Debug, PartialEq, Eq)]
pub struct FlushRequest {
    /// The turn of the source response.
    pub turn_id: Option<String>,
    /// Its generation.
    pub turn_generation: Option<i64>,
}

/// The last `max` items of `s`.
pub open spec fn keep_last<T>(s: Seq<T>, max: nat) -> Seq<T> {
    if s.len() <= max {
        s
    } else {
        s.skip(s.len() - max)
    }
}

/// What a batch flushes to, once it is flushable: nothing for a failed or
/// suppressed batch, otherwise a response for its turn.
pub open spec fn flush_of(b: DeferredBatch) -> Option<FlushRequest> {
    if b.failed || b.suppress_response {
        None
    } else {
        Some(FlushRequest { turn_id: b.turn_id, turn_generation: b.turn_generation })
    }
}

/// A batch is flushable once its source response finished and no output is
/// still pending.
pub open spec fn flushable(b: DeferredBatch) -> bool {
    b.source_done && b.pending == 0
}

/// The answering state of one session's tool calls.
pub struct ToolCallHandler {
    owner_id: String,
    session_id: String,
    mode: ModePlan,
    processed_calls: IndexSet<String>,
    turn_tasks: IndexMap<String, String>,
    deferred: IndexMap<String, DeferredBatch>,
    gateway_approved: IndexSet<String>,
    client_context: ClientContext,
}

impl ToolCallHandler {
    /// The answered call ids, oldest first.
    pub closed spec fn processed(&self) -> Seq<Seq<char>> {
        string_set_entries(self.processed_calls)
    }

    /// Turn to submitted Work id, oldest first.
    pub closed spec fn turn_tasks_spec(&self) -> Seq<(Seq<char>, String)> {
        work_id_entries(self.turn_tasks)
    }

    /// Response id to deferred batch, oldest first.
    pub closed spec fn deferred_spec(&self) -> Seq<(Seq<char>, DeferredBatch)> {
        deferred_batch_entries(self.deferred)
    }

    /// The permissions this gateway approved itself.
    pub closed spec fn approved(&self) -> Seq<Seq<char>> {
        string_set_entries(self.gateway_approved)
    }

    /// The owner this handler answers for.
    pub closed spec fn owner_spec(&self) -> Seq<char> {
        self.owner_id@
    }

    /// The session this handler answers for.
    pub closed spec fn session_spec(&self) -> Seq<char> {
        self.session_id@
    }

    /// The session's mode plan.
    pub closed spec fn mode_spec(&self) -> ModePlan {
        self.mode
    }

    /// The client context last declared.
    pub closed spec fn context_spec(&self) -> ClientContext {
        self.client_context
    }

    /// The caches are within their bounds and hold nothing twice.
    pub closed spec fn wf(&self) -> bool {
        &&& distinct_strings(self.processed())
        &&& self.processed().len() <= MAX_PROCESSED_CALLS
        &&& distinct_keys(self.turn_tasks_spec())
        &&& self.turn_tasks_spec().len() <= MAX_TURN_TASKS
        &&& distinct_keys(self.deferred_spec())
        &&& self.deferred_spec().len() <= MAX_DEFERRED_RESPONSES
        &&& distinct_strings(self.approved())
    }

    /// A handler for `owner_id`'s session `session_id`, in `mode`.
    pub fn new(owner_id: &str, session_id: &str, mode: ModePlan) -> (r: Self)
        ensures
            r.wf(),
            r.processed().len() == 0,
            r.turn_tasks_spec().len() == 0,
            r.deferred_spec().len() == 0,
            r.approved().len() == 0,
            r.mode_spec() == mode,
            r.owner_spec() == owner_id@,
            r.session_spec() == session_id@,
    {
        ToolCallHandler {
            owner_id: owner_id.to_owned(),
            session_id: session_id.to_owned(),
            mode,
            processed_calls: string_set_new(),
            turn_tasks: work_id_map_new(),
            deferred: deferred_batch_map_new(),
            gateway_approved: string_set_new(),
            client_context: ClientContext {
                time_zone: String::new(),
                locale: String::new(),
                working_directory: String::new(),
                states: Vec::new(),
            },
        }
    }

    /// The owner.
    pub fn owner_id(&self) -> (r: &str)
        ensures
            r@ == self.owner_spec(),
    {
        self.owner_id.as_str()
    }

    /// The session.
    pub fn session_id(&self) -> (r: &str)
        ensures
            r@ == self.session_spec(),
    {
        self.session_id.as_str()
    }

    /// Whether this call is for a turn the gateway has moved past.
    pub fn is_stale(&self, call: &ToolCall, committed: &CommittedTurn) -> (r: bool)
        ensures
            r == stale_spec(*call, *committed),
    {
        let generation = match call.turn_generation {
            Some(g) => g,
            None => committed.turn_generation,
        };
        if generation != committed.turn_generation {
            return true;
        }
        match &call.turn_id {
            Some(t) => t.as_str().unicode_len() > 0 && committed.turn_id.as_str().unicode_len() > 0
                && !str_eq(t.as_str(), committed.turn_id.as_str()),
            None => false,
        }
    }

    /// Decide what to do with one call, in order: a call without an id
    /// cannot be answered; an id already answered is a duplicate (and is
    /// remembered, oldest forgotten first, beyond [`MAX_PROCESSED_CALLS`]);
    /// a stale call is superseded, before any tool body runs; a tool this
    /// session does not declare, or does not know, is unsupported.
    pub fn accept_call(&mut self, call: &ToolCall, committed: &CommittedTurn) -> (r: Admission)
        requires
            old(self).wf(),
        ensures
            final(self).wf(),
            final(self).turn_tasks_spec() == old(self).turn_tasks_spec(),
            final(self).deferred_spec() == old(self).deferred_spec(),
            final(self).approved() == old(self).approved(),
            final(self).mode_spec() == old(self).mode_spec(),
            final(self).context_spec() == old(self).context_spec(),
            call.call_id@.len() == 0 ==> r == Admission::MissingCallId && final(self).processed() == old(self).processed(),
            call.call_id@.len() > 0 && old(self).processed().contains(call.call_id@) ==> r == Admission::Duplicate
                && final(self).processed() == old(self).processed(),
            call.call_id@.len() > 0 && !old(self).processed().contains(call.call_id@) ==> {
                &&& final(self).processed() == keep_last(old(self).processed().push(call.call_id@), MAX_PROCESSED_CALLS as nat)
                &&& if stale_spec(*call, *committed) {
                    r matches Admission::Superseded { turn_id } && turn_id@ == call_turn_spec(*call, *committed)
                } else if !old(self).mode_spec().declares_tool_spec(call.name@) || tool_kind_spec(call.name@) is None {
                    r matches Admission::Unsupported { turn_id } && turn_id@ == call_turn_spec(*call, *committed)
                } else {
                    r matches Admission::Run { tool, turn_id } && turn_id@ == call_turn_spec(*call, *committed)
                        && Some(tool) == tool_kind_spec(call.name@)
                }
            },
    {
        if call.call_id.as_str().unicode_len() == 0 {
            return Admission::MissingCallId;
        }
        if !string_set_insert(&mut self.processed_calls, call.call_id.clone()) {
            return Admission::Duplicate;
        }
        let ghost pushed = old(self).processed().push(call.call_id@);
        let ghost mut evicted: int = 0;
        while string_set_len(&self.processed_calls) > MAX_PROCESSED_CALLS
            invariant
                0 <= evicted <= pushed.len(),
                evicted > 0 ==> pushed.len() - evicted >= MAX_PROCESSED_CALLS,
                self.processed() == pushed.skip(evicted),
                distinct_strings(self.processed()),
                self.turn_tasks_spec() == old(self).turn_tasks_spec(),
                self.deferred_spec() == old(self).deferred_spec(),
                self.approved() == old(self).approved(),
                self.mode_spec() == old(self).mode_spec(),
                self.context_spec() == old(self).context_spec(),
            decreases pushed.len() - evicted,
        {
            string_set_shift_remove_first(&mut self.processed_calls);
            proof {
                assert(self.processed() =~= pushed.skip(evicted + 1));
                evicted = evicted + 1;
            }
        }
        proof {
            if pushed.len() <= MAX_PROCESSED_CALLS {
                assert(evicted == 0) by {
                    if evicted > 0 {
                        assert(false);
                    }
                }
                assert(pushed.skip(0) =~= pushed);
            }
            assert(self.processed() =~= keep_last(pushed, MAX_PROCESSED_CALLS as nat));
        }
        let turn_id = match &call.turn_id {
            Some(t) => if t.as_str().unicode_len() > 0 { t.clone() } else { committed.turn_id.clone() },
            None => committed.turn_id.clone(),
        };
        if self.is_stale(call, committed) {
            return Admission::Superseded { turn_id };
        }
        if !self.mode.declares_tool(call.name.as_str()) {
            return Admission::Unsupported { turn_id };
        }
        match tool_kind(call.name.as_str()) {
            Some(tool) => Admission::Run { tool, turn_id },
            None => Admission::Unsupported { turn_id },
        }
    }

    /// The client context last declared.
    pub fn client_context(&self) -> (r: &ClientContext)
        ensures
            *r == self.context_spec(),
    {
        &self.client_context
    }

    /// Replace the client context this handler reads.
    pub fn set_client_context(&mut self, context: ClientContext)
        requires
            old(self).wf(),
        ensures
            final(self).wf(),
            final(self).context_spec() == context,
            final(self).processed() == old(self).processed(),
            final(self).turn_tasks_spec() == old(self).turn_tasks_spec(),
            final(self).deferred_spec() == old(self).deferred_spec(),
            final(self).approved() == old(self).approved(),
            final(self).mode_spec() == old(self).mode_spec(),
    {
        self.client_context = context;
    }

    /// The Work this turn already submitted, if any.
    pub fn turn_task(&self, turn_id: &str) -> (r: Option<&String>)
        requires
            self.wf(),
        ensures
            r is Some == has_key(self.turn_tasks_spec(), turn_id@),
            r matches Some(w) ==> *w == value_of(self.turn_tasks_spec(), turn_id@),
    {
        match work_id_map_index_of(&self.turn_tasks, turn_id) {
            Some(i) => {
                proof {
                    lemma_key_index(self.turn_tasks_spec(), i as int);
                }
                Some(work_id_map_value_at(&self.turn_tasks, i))
            },
            None => None,
        }
    }

    /// Remember the Work a turn submitted, forgetting the oldest turns beyond
    /// [`MAX_TURN_TASKS`].
    pub fn remember_turn_task(&mut self, turn_id: &str, work_id: &str)
        requires
            old(self).wf(),
        ensures
            final(self).wf(),
            has_key(final(self).turn_tasks_spec(), turn_id@),
            final(self).turn_tasks_spec() == keep_last(
                seq_insert_entry(old(self).turn_tasks_spec(), turn_id@, value_of(final(self).turn_tasks_spec(), turn_id@)),
                MAX_TURN_TASKS as nat,
            ),
            value_of(final(self).turn_tasks_spec(), turn_id@)@ == work_id@,
            final(self).processed() == old(self).processed(),
            final(self).deferred_spec() == old(self).deferred_spec(),
            final(self).approved() == old(self).approved(),
            final(self).mode_spec() == old(self).mode_spec(),
            final(self).context_spec() == old(self).context_spec(),
    {
        let value = work_id.to_owned();
        let ghost before = self.turn_tasks_spec();
        let ghost v = value;
        work_id_map_insert(&mut self.turn_tasks, turn_id.to_owned(), value);
        let ghost inserted = seq_insert_entry(before, turn_id@, v);
        proof {
            crate::strmap::lemma_insert_entry(before, turn_id@, v);
        }
        let ghost mut evicted: int = 0;
        while work_id_map_len(&self.turn_tasks) > MAX_TURN_TASKS
            invariant
                0 <= evicted <= inserted.len(),
                evicted > 0 ==> inserted.len() - evicted >= MAX_TURN_TASKS,
                inserted.len() <= MAX_TURN_TASKS + 1,
                self.turn_tasks_spec() == inserted.skip(evicted),
                distinct_keys(self.turn_tasks_spec()),
                self.processed() == old(self).processed(),
                self.deferred_spec() == old(self).deferred_spec(),
                self.approved() == old(self).approved(),
                self.mode_spec() == old(self).mode_spec(),
                self.context_spec() == old(self).context_spec(),
            decreases inserted.len() - evicted,
        {
            work_id_map_shift_remove_first(&mut self.turn_tasks);
            proof {
                assert(self.turn_tasks_spec() =~= inserted.skip(evicted + 1));
                evicted = evicted + 1;
            }
        }
        proof {
            if inserted.len() <= MAX_TURN_TASKS {
                assert(evicted == 0) by {
                    if evicted > 0 {
                        assert(false);
                    }
                }
                assert(inserted.skip(0) =~= inserted);
            }
            let kept = self.turn_tasks_spec();
            assert(kept =~= keep_last(inserted, MAX_TURN_TASKS as nat));
            if !has_key(before, turn_id@) {
                assert(inserted.last() == (turn_id@, v));
                assert(kept.last() == inserted.last());
                assert(kept[kept.len() - 1].0 == turn_id@);
                lemma_key_index(kept, kept.len() - 1);
            } else {
                assert(inserted.len() == before.len());
                assert(evicted == 0);
                assert(kept == inserted);
            }
        }
    }

    /// Register one deferred tool output for `response_id`, answering
    /// whether deferral is in force: an empty response id cannot be deferred,
    /// because there is nothing to flush against. A new response id beyond
    /// [`MAX_DEFERRED_RESPONSES`] makes the oldest batch go.
    pub fn begin_deferred_tool_response(&mut self, response_id: &str, turn_id: &str, turn_generation: Option<i64>) -> (r: bool)
        requires
            old(self).wf(),
        ensures
            final(self).wf(),
            r == (response_id@.len() > 0),
            !r ==> final(self).deferred_spec() == old(self).deferred_spec(),
            r ==> has_key(final(self).deferred_spec(), response_id@),
            r && has_key(old(self).deferred_spec(), response_id@) ==> ({
                let b0 = value_of(old(self).deferred_spec(), response_id@);
                let b = value_of(final(self).deferred_spec(), response_id@);
                b == (DeferredBatch { pending: if b0.pending == usize::MAX { usize::MAX } else { (b0.pending + 1) as usize }, ..b0 })
            }),
            r && !has_key(old(self).deferred_spec(), response_id@) ==> ({
                let b = value_of(final(self).deferred_spec(), response_id@);
                &&& b.pending == 1
                &&& !b.source_done && !b.failed && !b.suppress_response
                &&& b.turn_generation == turn_generation
                &&& match b.turn_id {
                    Some(t) => turn_id@.len() > 0 && t@ == turn_id@,
                    None => turn_id@.len() == 0,
                }
            }),
            final(self).processed() == old(self).processed(),
            final(self).turn_tasks_spec() == old(self).turn_tasks_spec(),
            final(self).approved() == old(self).approved(),
            final(self).mode_spec() == old(self).mode_spec(),
            final(self).context_spec() == old(self).context_spec(),
    {
        if response_id.unicode_len() == 0 {
            return false;
        }
        let existing = deferred_batch_map_index_of(&self.deferred, response_id);
        let batch = match existing {
            Some(i) => {
                proof {
                    lemma_key_index(self.deferred_spec(), i as int);
                }
                let b = deferred_batch_map_value_at(&self.deferred, i);
                DeferredBatch {
                    pending: if b.pending == usize::MAX { usize::MAX } else { b.pending + 1 },
                    source_done: b.source_done,
                    failed: b.failed,
                    suppress_response: b.suppress_response,
                    turn_id: match &b.turn_id {
                        Some(t) => Some(t.clone()),
                        None => None,
                    },
                    turn_generation: b.turn_generation,
                }
            },
            None => {
                if deferred_batch_map_len(&self.deferred) >= MAX_DEFERRED_RESPONSES {
                    let ghost before = self.deferred_spec();
                    deferred_batch_map_shift_remove_first(&mut self.deferred);
                    proof {
                        assert forall|i: int| 0 <= i < self.deferred_spec().len() implies self.deferred_spec()[i].0 != response_id@ by {
                            assert(self.deferred_spec()[i] == before[i + 1]);
                        }
                    }
                }
                DeferredBatch {
                    pending: 1,
                    source_done: false,
                    failed: false,
                    suppress_response: false,
                    turn_id: if turn_id.unicode_len() > 0 { Some(turn_id.to_owned()) } else { None },
                    turn_generation,
                }
            },
        };
        let ghost b = batch;
        let ghost before = self.deferred_spec();
        deferred_batch_map_insert(&mut self.deferred, response_id.to_owned(), batch);
        proof {
            crate::strmap::lemma_insert_entry(before, response_id@, b);
        }
        true
    }

    /// Take the batch for `response_id` out when it is flushable.
    fn take_flushable(&mut self, response_id: &str) -> (r: Option<DeferredBatch>)
        requires
            old(self).wf(),
            has_key(old(self).deferred_spec(), response_id@),
        ensures
            final(self).wf(),
            ({
                let b = value_of(old(self).deferred_spec(), response_id@);
                if flushable(b) {
                    r == Some(b) && final(self).deferred_spec() == crate::strmap::seq_remove_entry(old(self).deferred_spec(), response_id@)
                } else {
                    r is None && final(self).deferred_spec() == old(self).deferred_spec()
                }
            }),
            final(self).processed() == old(self).processed(),
            final(self).turn_tasks_spec() == old(self).turn_tasks_spec(),
            final(self).approved() == old(self).approved(),
            final(self).mode_spec() == old(self).mode_spec(),
            final(self).context_spec() == old(self).context_spec(),
    {
        let i = match deferred_batch_map_index_of(&self.deferred, response_id) {
            Some(i) => i,
            None => {
                proof {
                    let j = crate::strmap::key_index(self.deferred_spec(), response_id@);
                    assert(self.deferred_spec()[j].0 == response_id@);
                }
                return None;
            },
        };
        proof {
            lemma_key_index(self.deferred_spec(), i as int);
        }
        let b = deferred_batch_map_value_at(&self.deferred, i);
        if !b.source_done || b.pending > 0 {
            return None;
        }
        let ghost before = self.deferred_spec();
        let taken = deferred_batch_map_shift_remove(&mut self.deferred, response_id);
        proof {
            assert(self.deferred_spec().len() <= before.len()) by {
                assert(has_key(before, response_id@));
            }
        }
        taken
    }

    /// One deferred output finished (and failed, when `failed`). When that
    /// was the last output of a finished source response, the batch is
    /// flushed: the response to create is answered, unless some output
    /// failed or the model has nothing more to say.
    pub fn complete_deferred_tool_response(&mut self, response_id: &str, failed: bool) -> (r: Option<FlushRequest>)
        requires
            old(self).wf(),
        ensures
            final(self).wf(),
            !has_key(old(self).deferred_spec(), response_id@) ==> r is None && final(self).deferred_spec()
                == old(self).deferred_spec(),
            has_key(old(self).deferred_spec(), response_id@) ==> ({
                let b0 = value_of(old(self).deferred_spec(), response_id@);
                let b = DeferredBatch {
                    pending: if b0.pending == 0 { 0 } else { (b0.pending - 1) as usize },
                    failed: b0.failed || failed,
                    ..b0
                };
                if flushable(b) {
                    r == flush_of(b) && final(self).deferred_spec() == crate::strmap::seq_remove_entry(
                        old(self).deferred_spec(),
                        response_id@,
                    )
                } else {
                    r is None && final(self).deferred_spec() == crate::strmap::seq_insert_entry(
                        old(self).deferred_spec(),
                        response_id@,
                        b,
                    )
                }
            }),
            final(self).processed() == old(self).processed(),
            final(self).turn_tasks_spec() == old(self).turn_tasks_spec(),
            final(self).approved() == old(self).approved(),
            final(self).mode_spec() == old(self).mode_spec(),
            final(self).context_spec() == old(self).context_spec(),
    {
        let i = match deferred_batch_map_index_of(&self.deferred, response_id) {
            Some(i) => i,
            None => {
                proof {
                    if has_key(old(self).deferred_spec(), response_id@) {
                        let j = crate::strmap::key_index(self.deferred_spec(), response_id@);
                        assert(self.deferred_spec()[j].0 == response_id@);
                    }
                }
                return None;
            },
        };
        proof {
            lemma_key_index(self.deferred_spec(), i as int);
        }
        let b0 = deferred_batch_map_value_at(&self.deferred, i);
        let updated = DeferredBatch {
            pending: if b0.pending == 0 { 0 } else { b0.pending - 1 },
            source_done: b0.source_done,
            failed: b0.failed || failed,
            suppress_response: b0.suppress_response,
            turn_id: match &b0.turn_id {
                Some(t) => Some(t.clone()),
                None => None,
            },
            turn_generation: b0.turn_generation,
        };
        let ghost u = updated;
        let ghost before = self.deferred_spec();
        deferred_batch_map_insert(&mut self.deferred, response_id.to_owned(), updated);
        proof {
            crate::strmap::lemma_insert_entry(before, response_id@, u);
            assert(self.deferred_spec().len() == before.len());
        }
        let ghost mid = self.deferred_spec();
        match self.take_flushable(response_id) {
            Some(batch) => {
                proof {
                    assert(crate::strmap::seq_remove_entry(mid, response_id@) == crate::strmap::seq_remove_entry(before, response_id@)) by {
                        lemma_remove_after_update(before, response_id@, u);
                    }
                }
                if batch.failed || batch.suppress_response {
                    None
                } else {
                    Some(FlushRequest { turn_id: batch.turn_id, turn_generation: batch.turn_generation })
                }
            },
            None => None,
        }
    }

    /// The source response finished; `suppress` carries the reasons the
    /// gateway already knows the model has nothing more to say. When no
    /// output is still pending, the batch is flushed as in
    /// [`Self::complete_deferred_tool_response`].
    pub fn finish_tool_response(&mut self, response_id: &str, suppress: bool) -> (r: Option<FlushRequest>)
        requires
            old(self).wf(),
        ensures
            final(self).wf(),
            !has_key(old(self).deferred_spec(), response_id@) ==> r is None && final(self).deferred_spec()
                == old(self).deferred_spec(),
            has_key(old(self).deferred_spec(), response_id@) ==> ({
                let b0 = value_of(old(self).deferred_spec(), response_id@);
                let b = DeferredBatch { source_done: true, suppress_response: b0.suppress_response || suppress, ..b0 };
                if flushable(b) {
                    r == flush_of(b) && final(self).deferred_spec() == crate::strmap::seq_remove_entry(
                        old(self).deferred_spec(),
                        response_id@,
                    )
                } else {
                    r is None && final(self).deferred_spec() == crate::strmap::seq_insert_entry(
                        old(self).deferred_spec(),
                        response_id@,
                        b,
                    )
                }
            }),
            final(self).processed() == old(self).processed(),
            final(self).turn_tasks_spec() == old(self).turn_tasks_spec(),
            final(self).approved() == old(self).approved(),
            final(self).mode_spec() == old(self).mode_spec(),
            final(self).context_spec() == old(self).context_spec(),
    {
        let i = match deferred_batch_map_index_of(&self.deferred, response_id) {
            Some(i) => i,
            None => {
                proof {
                    if has_key(old(self).deferred_spec(), response_id@) {
                        let j = crate::strmap::key_index(self.deferred_spec(), response_id@);
                        assert(self.deferred_spec()[j].0 == response_id@);
                    }
                }
                return None;
            },
        };
        proof {
            lemma_key_index(self.deferred_spec(), i as int);
        }
        let b0 = deferred_batch_map_value_at(&self.deferred, i);
        let updated = DeferredBatch {
            pending: b0.pending,
            source_done: true,
            failed: b0.failed,
            suppress_response: b0.suppress_response || suppress,
            turn_id: match &b0.turn_id {
                Some(t) => Some(t.clone()),
                None => None,
            },
            turn_generation: b0.turn_generation,
        };
        let ghost u = updated;
        let ghost before = self.deferred_spec();
        deferred_batch_map_insert(&mut self.deferred, response_id.to_owned(), updated);
        proof {
            crate::strmap::lemma_insert_entry(before, response_id@, u);
            assert(self.deferred_spec().len() == before.len());
        }
        let ghost mid = self.deferred_spec();
        match self.take_flushable(response_id) {
            Some(batch) => {
                proof {
                    lemma_remove_after_update(before, response_id@, u);
                }
                if batch.failed || batch.suppress_response {
                    None
                } else {
                    Some(FlushRequest { turn_id: batch.turn_id, turn_generation: batch.turn_generation })
                }
            },
            None => None,
        }
    }

    /// Remember that this gateway approved `permission_id` itself, so the
    /// approval is not re-announced as if a person had to decide it.
    pub fn mark_gateway_approved(&mut self, permission_id: &str)
        requires
            old(self).wf(),
        ensures
            final(self).wf(),
            final(self).approved().contains(permission_id@),
            old(self).approved().contains(permission_id@) ==> final(self).approved() == old(self).approved(),
            !old(self).approved().contains(permission_id@) ==> final(self).approved() == old(self).approved().push(permission_id@),
            final(self).processed() == old(self).processed(),
            final(self).turn_tasks_spec() == old(self).turn_tasks_spec(),
            final(self).deferred_spec() == old(self).deferred_spec(),
            final(self).mode_spec() == old(self).mode_spec(),
            final(self).context_spec() == old(self).context_spec(),
    {
        string_set_insert(&mut self.gateway_approved, permission_id.to_owned());
        proof {
            if !old(self).approved().contains(permission_id@) {
                assert(self.approved()[self.approved().len() - 1] == permission_id@);
            }
        }
    }

    /// Take the gateway-approval mark for `permission_id`, answering whether
    /// there was one.
    pub fn take_gateway_approval(&mut self, permission_id: &str) -> (r: bool)
        requires
            old(self).wf(),
        ensures
            final(self).wf(),
            r == old(self).approved().contains(permission_id@),
            !final(self).approved().contains(permission_id@),
            final(self).processed() == old(self).processed(),
            final(self).turn_tasks_spec() == old(self).turn_tasks_spec(),
            final(self).deferred_spec() == old(self).deferred_spec(),
            final(self).mode_spec() == old(self).mode_spec(),
            final(self).context_spec() == old(self).context_spec(),
    {
        let r = string_set_shift_remove(&mut self.gateway_approved, permission_id);
        proof {
            if r {
                lemma_remove_distinct(old(self).approved(), permission_id@);
            }
        }
        r
    }
}

/// What `chrono::DateTime::parse_from_rfc3339` makes of a string, in epoch
/// milliseconds: `None` when it does not parse.
pub uninterp spec fn rfc3339_millis(value: Seq<char>) -> Option<i64>;

/// What `chrono::NaiveDateTime::parse_from_str` makes of a string under a
/// format, taken as UTC, in epoch milliseconds: `None` when it does not
/// parse.
pub uninterp spec fn naive_utc_millis(value: Seq<char>, format: Seq<char>) -> Option<i64>;

/// An RFC 3339 instant.
///
/// Trusted: calls `chrono::DateTime::parse_from_rfc3339` and, on success,
/// `DateTime::timestamp_millis`. The contract claims only that the answer is
/// a function of the string, named [`rfc3339_millis`].
#[verifier::external_body]
fn parse_rfc3339(value: &str) -> (r: Option<i64>)
    ensures
        r == rfc3339_millis(value@),
{
    chrono::DateTime::parse_from_rfc3339(value).ok().map(|instant| instant.timestamp_millis())
}

/// A naive date-time under `format`, read as UTC.
///
/// Trusted: calls `chrono::NaiveDateTime::parse_from_str` and, on success,
/// `and_utc` and `timestamp_millis`. The contract claims only that the
/// answer is a function of the string and the format, named
/// [`naive_utc_millis`].
#[verifier::external_body]
fn parse_naive_utc(value: &str, format: &str) -> (r: Option<i64>)
    ensures
        r == naive_utc_millis(value@, format@),
{
    chrono::NaiveDateTime::parse_from_str(value, format).ok().map(|naive| naive.and_utc().timestamp_millis())
}

/// How a trimmed instant is read: RFC 3339, else a naive
/// `%Y-%m-%dT%H:%M:%S`, else a naive `%Y-%m-%dT%H:%M`, the naive forms taken
/// as UTC; in epoch milliseconds.
pub open spec fn instant_millis(value: Seq<char>) -> Option<i64> {
    match rfc3339_millis(value) {
        Some(ms) => Some(ms),
        None => match naive_utc_millis(value, "%Y-%m-%dT%H:%M:%S"@) {
            Some(ms) => Some(ms),
            None => naive_utc_millis(value, "%Y-%m-%dT%H:%M"@),
        },
    }
}

/// Parse an instant a model wrote.
fn parse_instant(value: &str) -> (r: Option<i64>)
    ensures
        r == instant_millis(value@),
{
    match parse_rfc3339(value) {
        Some(ms) => Some(ms),
        None => match parse_naive_utc(value, "%Y-%m-%dT%H:%M:%S") {
            Some(ms) => Some(ms),
            None => parse_naive_utc(value, "%Y-%m-%dT%H:%M"),
        },
    }
}

/// The instant an `execute_at` argument names: nothing for a blank one.
pub open spec fn execute_at_spec(raw: Seq<char>) -> Option<i64> {
    let value = trim_seq(raw);
    if value.len() == 0 {
        None
    } else {
        instant_millis(value)
    }
}

/// The instant an `execute_at` argument names.
pub fn parse_execute_at(raw: &str) -> (r: Option<i64>)
    ensures
        r == execute_at_spec(raw@),
{
    let value = trim(raw);
    if value.unicode_len() == 0 {
        return None;
    }
    parse_instant(value)
}

/// What a valid reminder request schedules.
#[derive(Clone, Debug, PartialEq, Eq)]
pub struct ReminderPlan {
    /// When, in epoch milliseconds.
    pub execute_at: i64,
    /// Whether it is a task (run by the backend) rather than a reminder
    /// (spoken back).
    pub is_task: bool,
    /// `task` or `reminder`.
    pub kind: &'static str,
    /// The recurrence, `once` by default.
    pub recurrence: String,
}

/// A reminder request's plan at time `now`: `None` (`invalid_time`) for an
/// unparseable instant, the epoch itself, or any instant not in the future.
/// A type other than `task` is a reminder; a blank recurrence is `once`.
pub open spec fn reminder_plan_spec(raw: Seq<char>, now: i64, kind: Seq<char>, recurrence: Seq<char>) -> Option<(i64, bool, Seq<char>, Seq<char>)> {
    match execute_at_spec(raw) {
        Some(at) => if at > now && at != 0 {
            let is_task = kind == "task"@;
            Some((at, is_task, if is_task { "task"@ } else { "reminder"@ }, if recurrence.len() == 0 { "once"@ } else { recurrence }))
        } else {
            None
        },
        None => None,
    }
}

/// Plan a reminder request at time `now`.
pub fn plan_reminder(raw_execute_at: &str, now: i64, kind: &str, recurrence: &str) -> (r: Option<ReminderPlan>)
    ensures
        match reminder_plan_spec(raw_execute_at@, now, kind@, recurrence@) {
            Some(p) => r matches Some(plan) && plan.execute_at == p.0 && plan.is_task == p.1 && plan.kind@ == p.2
                && plan.recurrence@ == p.3,
            None => r is None,
        },
{
    let at = match parse_execute_at(raw_execute_at) {
        Some(at) => at,
        None => return None,
    };
    if !(at > now && at != 0) {
        return None;
    }
    let is_task = str_eq(kind, "task");
    let recurrence = if recurrence.unicode_len() == 0 { "once".to_owned() } else { recurrence.to_owned() };
    Some(ReminderPlan { execute_at: at, is_task, kind: if is_task { "task" } else { "reminder" }, recurrence })
}

/// The current time in epoch milliseconds.
///
/// Trusted: wraps `chrono::Utc::now` and `DateTime::timestamp_millis`;
/// nothing is claimed of the value, which is the time.
#[verifier::external_body]
fn utc_now_ms() -> i64 {
    chrono::Utc::now().timestamp_millis()
}

/// Plan a reminder request against the current time: whatever the clock
/// reads, the plan is [`plan_reminder`]'s at that time.
pub fn plan_reminder_now(raw_execute_at: &str, kind: &str, recurrence: &str) -> (r: Option<ReminderPlan>)
    ensures
        exists|now: i64| match #[trigger] reminder_plan_spec(raw_execute_at@, now, kind@, recurrence@) {
            Some(p) => r matches Some(plan) && plan.execute_at == p.0 && plan.is_task == p.1 && plan.kind@ == p.2
                && plan.recurrence@ == p.3,
            None => r is None,
        },
{
    let now = utc_now_ms();
    plan_reminder(raw_execute_at, now, kind, recurrence)
}

/// The first position from `i` on whose Work is still cancellable.
pub open spec fn first_cancellable_from(works: Seq<WorkSummary>, i: int) -> Option<int>
    decreases works.len() - i,
{
    if i < 0 || i >= works.len() {
        None
    } else if cancellable(works[i].status) {
        Some(i)
    } else {
        first_cancellable_from(works, i + 1)
    }
}

/// The Work a cancellation targets: the requested id, trimmed, when there is
/// one; otherwise the first of the session's Work that is still cancellable.
pub open spec fn cancel_target_spec(requested: Seq<char>, works: Seq<WorkSummary>) -> Option<Seq<char>> {
    let r = trim_seq(requested);
    if r.len() > 0 {
        Some(r)
    } else {
        match first_cancellable_from(works, 0) {
            Some(i) => Some(works[i].id@),
            None => None,
        }
    }
}

/// The Work a cancellation targets.
pub fn cancel_target(requested: &str, works: &[WorkSummary]) -> (r: Option<String>)
    ensures
        match cancel_target_spec(requested@, works@) {
            Some(t) => r matches Some(x) && x@ == t,
            None => r is None,
        },
{
    let r = trim(requested);
    if r.unicode_len() > 0 {
        return Some(r.to_owned());
    }
    let mut i: usize = 0;
    while i < works.len()
        invariant
            i <= works@.len(),
            trim_seq(requested@).len() == 0,
            first_cancellable_from(works@, 0) == first_cancellable_from(works@, i as int),
        decreases works.len() - i,
    {
        if is_cancellable(works[i].status) {
            return Some(works[i].id.clone());
        }
        i = i + 1;
    }
    None
}

/// Whether `w` is a status query about `target`.
pub open spec fn queries(w: WorkSummary, target: Seq<char>) -> bool {
    w.control && (match w.parent_work_id {
        Some(p) => p@ == target,
        None => false,
    })
}

fn queries_exec(w: &WorkSummary, target: &str) -> (r: bool)
    ensures
        r == queries(*w, target@),
{
    w.control && match &w.parent_work_id {
        Some(p) => str_eq(p.as_str(), target),
        None => false,
    }
}

/// The ids of the status queries about `target`, in order.
pub open spec fn related_spec(works: Seq<WorkSummary>, target: Seq<char>) -> Seq<Seq<char>>
    decreases works.len(),
{
    if works.len() == 0 {
        Seq::empty()
    } else if queries(works.last(), target) {
        related_spec(works.drop_last(), target).push(works.last().id@)
    } else {
        related_spec(works.drop_last(), target)
    }
}

/// The status queries about `target`, in order: a query about Work being
/// cancelled is cancelled with it.
pub fn related_queries(works: &[WorkSummary], target: &str) -> (r: Vec<String>)
    ensures
        Seq::new(r@.len(), |k: int| r@[k]@) == related_spec(works@, target@),
{
    let mut out: Vec<String> = Vec::new();
    let mut i: usize = 0;
    assert(works@.take(0) =~= Seq::<WorkSummary>::empty());
    assert(Seq::new(out@.len(), |k: int| out@[k]@) =~= Seq::<Seq<char>>::empty());
    while i < works.len()
        invariant
            i <= works@.len(),
            Seq::new(out@.len(), |k: int| out@[k]@) == related_spec(works@.take(i as int), target@),
        decreases works.len() - i,
    {
        assert(works@.take(i + 1).drop_last() =~= works@.take(i as int));
        assert(works@.take(i + 1).last() == works@[i as int]);
        if queries_exec(&works[i], target) {
            let ghost before = Seq::new(out@.len(), |k: int| out@[k]@);
            out.push(works[i].id.clone());
            assert(Seq::new(out@.len(), |k: int| out@[k]@) =~= before.push(works@[i as int].id@));
        }
        i = i + 1;
    }
    assert(works@.take(works@.len() as int) =~= works@);
    out
}

/// The status query already in flight about `work_id`, if any.
pub fn in_flight_query(works: &[WorkSummary], work_id: &str) -> (r: Option<usize>)
    ensures
        match r {
            Some(i) => i < works@.len() && queries(works@[i as int], work_id@) && forall|j: int| 0 <= j < i ==> !queries(
                #[trigger] works@[j],
                work_id@,
            ),
            None => forall|j: int| 0 <= j < works@.len() ==> !queries(#[trigger] works@[j], work_id@),
        },
{
    let mut i: usize = 0;
    while i < works.len()
        invariant
            i <= works@.len(),
            forall|j: int| 0 <= j < i ==> !queries(#[trigger] works@[j], work_id@),
        decreases works.len() - i,
    {
        if queries_exec(&works[i], work_id) {
            return Some(i);
        }
        i = i + 1;
    }
    None
}

/// The question a delegated status query asks: the user's own, trimmed,
/// or else the turn's transcript, trimmed.
pub fn status_question(supplied: &str, transcript: &str) -> (r: String)
    ensures
        r@ == (if trim_seq(supplied@).len() > 0 { trim_seq(supplied@) } else { trim_seq(transcript@) }),
{
    let s = trim(supplied);
    let question = if s.unicode_len() > 0 { s } else { transcript };
    proof {
        crate::text::lemma_trim_idempotent(supplied@);
    }
    trim(question).to_owned()
}

/// Whether answering a status question about a finished Work also delivers
/// its pending notification: the user just heard the result.
pub fn consumes_notification(status: WorkStatus, notification: NotificationStatus) -> (r: bool)
    ensures
        r == ((status == WorkStatus::Completed || status == WorkStatus::Failed) && (notification
            == NotificationStatus::Pending || notification == NotificationStatus::Delivering)),
{
    (status == WorkStatus::Completed || status == WorkStatus::Failed) && (notification == NotificationStatus::Pending
        || notification == NotificationStatus::Delivering)
}

/// A full listing: how many items it reports (at most [`LIST_ALL_CAP`]) and
/// its status, `empty` or `ok`.
pub fn list_all_summary(total: usize) -> (r: (usize, &'static str))
    ensures
        r.0 == (if total < LIST_ALL_CAP { total } else { LIST_ALL_CAP }),
        r.1@ == (if r.0 == 0 { "empty"@ } else { "ok"@ }),
{
    let count = if total < LIST_ALL_CAP { total } else { LIST_ALL_CAP };
    (count, if count == 0 { "empty" } else { "ok" })
}

/// A permission answer, validated: a non-blank authorization id, a
/// recognized decision, and a transcript the user actually spoke on this
/// turn. The transcript requirement is the anti-hallucination gate: the
/// model may not approve a permission on a turn where the user said nothing.
pub fn permission_request(authorization_id: &str, decision: &str, transcript: &str) -> (r: Option<(String, PermissionDecision)>)
    ensures
        ({
            let id = trim_seq(authorization_id@);
            let d = trim_seq(decision@);
            let valid = id.len() > 0 && trim_seq(transcript@).len() > 0 && (d == "always"@ || d == "reject"@);
            &&& valid ==> (r matches Some(p) && p.0@ == id && p.1 == (if d == "always"@ {
                PermissionDecision::Always
            } else {
                PermissionDecision::Reject
            }))
            &&& !valid ==> r is None
        }),
{
    let id = trim(authorization_id);
    let decision = PermissionDecision::from_wire(trim(decision));
    match decision {
        Some(d) => if id.unicode_len() > 0 && trim(transcript).unicode_len() > 0 {
            Some((id.to_owned(), d))
        } else {
            None
        },
        None => None,
    }
}

/// Whether `w` waits on permission `authorization_id`.
pub open spec fn waits_on(w: WorkSummary, authorization_id: Seq<char>) -> bool {
    match w.authorization_id {
        Some(a) => a@ == authorization_id,
        None => false,
    }
}

/// The first Work waiting on permission `authorization_id`, if any.
pub fn permission_work(works: &[WorkSummary], authorization_id: &str) -> (r: Option<usize>)
    ensures
        match r {
            Some(i) => i < works@.len() && waits_on(works@[i as int], authorization_id@) && forall|j: int| 0 <= j < i ==> !waits_on(
                #[trigger] works@[j],
                authorization_id@,
            ),
            None => forall|j: int| 0 <= j < works@.len() ==> !waits_on(#[trigger] works@[j], authorization_id@),
        },
{
    let mut i: usize = 0;
    while i < works.len()
        invariant
            i <= works@.len(),
            forall|j: int| 0 <= j < i ==> !waits_on(#[trigger] works@[j], authorization_id@),
        decreases works.len() - i,
    {
        let hit = match &works[i].authorization_id {
            Some(a) => str_eq(a.as_str(), authorization_id),
            None => false,
        };
        if hit {
            return Some(i);
        }
        i = i + 1;
    }
    None
}

/// The first Work whose permission is still pending, if any: a delegation
/// is refused while the user owes a decision.
pub fn pending_permission_work(works: &[WorkSummary]) -> (r: Option<usize>)
    ensures
        match r {
            Some(i) => i < works@.len() && works@[i as int].authorization_id is Some && works@[i as int].authorization_pending
                && forall|j: int| 0 <= j < i ==> !((#[trigger] works@[j]).authorization_id is Some && works@[j].authorization_pending),
            None => forall|j: int| 0 <= j < works@.len() ==> !((#[trigger] works@[j]).authorization_id is Some
                && works@[j].authorization_pending),
        },
{
    let mut i: usize = 0;
    while i < works.len()
        invariant
            i <= works@.len(),
            forall|j: int| 0 <= j < i ==> !((#[trigger] works@[j]).authorization_id is Some && works@[j].authorization_pending),
        decreases works.len() - i,
    {
        if works[i].authorization_id.is_some() && works[i].authorization_pending {
            return Some(i);
        }
        i = i + 1;
    }
    None
}

/// Why a delegation is refused before anything is submitted.
#[derive(Clone, Copy, Debug, PartialEq, Eq)]
pub enum SpawnRefusal {
    /// A permission decision is owed first.
    PermissionPending,
    /// No backend is configured.
    BackendNotConfigured,
    /// The backend is known to be down.
    BackendDisconnected,
}

/// Why a delegation is refused, checked in order: a permission pending,
/// no backend configured, or a backend known to be down.
pub open spec fn spawn_refusal_spec(permission_pending: bool, state: BackendState) -> Option<SpawnRefusal> {
    if permission_pending {
        Some(SpawnRefusal::PermissionPending)
    } else if !state.configured {
        Some(SpawnRefusal::BackendNotConfigured)
    } else if state.known && !state.ok {
        Some(SpawnRefusal::BackendDisconnected)
    } else {
        None
    }
}

/// Whether a delegation may be submitted, given what the probe reported.
pub fn spawn_refusal_for(permission_pending: bool, state: BackendState) -> (r: Option<SpawnRefusal>)
    ensures
        r == spawn_refusal_spec(permission_pending, state),
{
    if permission_pending {
        return Some(SpawnRefusal::PermissionPending);
    }
    if !state.configured {
        return Some(SpawnRefusal::BackendNotConfigured);
    }
    if state.known && !state.ok {
        return Some(SpawnRefusal::BackendDisconnected);
    }
    None
}

/// Whether a delegation may be submitted: a pending permission refuses
/// without asking the probe; otherwise the probe is asked and its answers
/// decide as in [`spawn_refusal_for`].
pub fn spawn_refusal<A: BackendAvailability>(permission_pending: bool, availability: &A) -> (r: Option<SpawnRefusal>)
    ensures
        exists|state: BackendState| r == #[trigger] spawn_refusal_spec(permission_pending, state),
        permission_pending ==> r == Some(SpawnRefusal::PermissionPending),
{
    if permission_pending {
        let r = spawn_refusal_for(true, BackendState { configured: true, ok: true, known: false });
        return r;
    }
    let state = BackendState {
        configured: availability.configured(),
        ok: availability.ok(),
        known: availability.known(),
    };
    spawn_refusal_for(false, state)
}

/// The duplicate-submission key of a delegation: per session and per turn,
/// so the same turn cannot submit twice even if the model calls the tool
/// twice; a call with no turn is keyed by its call id.
pub open spec fn submission_key_spec(session_id: Seq<char>, turn_id: Seq<char>, call_id: Seq<char>) -> Seq<char> {
    "delegation:"@ + session_id + ":"@ + if turn_id.len() == 0 { call_id } else { turn_id }
}

/// The duplicate-submission key of a delegation.
pub fn submission_key(session_id: &str, turn_id: &str, call_id: &str) -> (r: String)
    ensures
        r@ == submission_key_spec(session_id@, turn_id@, call_id@),
{
    let mut out: Vec<char> = Vec::new();
    push_str(&mut out, "delegation:");
    push_str(&mut out, session_id);
    push_str(&mut out, ":");
    if turn_id.unicode_len() == 0 {
        push_str(&mut out, call_id);
    } else {
        push_str(&mut out, turn_id);
    }
    string_from_chars(&out)
}

/// The items of a notes request: trimmed (a non-string counts as empty),
/// blanks dropped, at most [`MAX_NOTES_ITEMS`] kept. The schema's limit is
/// advisory to the model; this is the enforcement.
pub open spec fn notes_items_spec(values: Seq<Option<Seq<char>>>) -> Seq<Seq<char>>
    decreases values.len(),
{
    if values.len() == 0 {
        Seq::empty()
    } else {
        let kept = notes_items_spec(values.drop_last());
        let item = trim_seq(match values.last() {
            Some(v) => v,
            None => Seq::empty(),
        });
        if item.len() > 0 && kept.len() < MAX_NOTES_ITEMS {
            kept.push(item)
        } else {
            kept
        }
    }
}

/// The items of a notes request.
pub fn notes_items(values: &[Option<String>]) -> (r: Vec<String>)
    ensures
        Seq::new(r@.len(), |i: int| r@[i]@) == notes_items_spec(Seq::new(values@.len(), |i: int| crate::input::parts::opt_seq(values@[i]))),
{
    let ghost vs = Seq::new(values@.len(), |i: int| crate::input::parts::opt_seq(values@[i]));
    let mut out: Vec<String> = Vec::new();
    let mut i: usize = 0;
    assert(vs.take(0) =~= Seq::<Option<Seq<char>>>::empty());
    assert(Seq::new(out@.len(), |k: int| out@[k]@) =~= Seq::<Seq<char>>::empty());
    while i < values.len()
        invariant
            i <= values@.len(),
            vs == Seq::new(values@.len(), |i: int| crate::input::parts::opt_seq(values@[i])),
            Seq::new(out@.len(), |k: int| out@[k]@) == notes_items_spec(vs.take(i as int)),
        decreases values.len() - i,
    {
        assert(vs.take(i + 1).drop_last() =~= vs.take(i as int));
        assert(vs.take(i + 1).last() == vs[i as int]);
        proof {
            reveal_strlit("");
        }
        let item = match &values[i] {
            Some(v) => trim(v.as_str()),
            None => trim(""),
        };
        if item.unicode_len() > 0 && out.len() < MAX_NOTES_ITEMS {
            let ghost before = Seq::new(out@.len(), |k: int| out@[k]@);
            out.push(item.to_owned());
            assert(Seq::new(out@.len(), |k: int| out@[k]@) =~= before.push(item@));
        }
        i = i + 1;
    }
    assert(vs.take(values@.len() as int) =~= vs);
    out
}

/// The document a memory request names: the one given; for a read with
/// none, every document (`all_scope`); for a write with none, nothing, which
/// the memory tool refuses rather than guessing.
pub fn memory_document(action: &str, document: Option<&str>, all_scope: &str) -> (r: Option<String>)
    ensures
        match document {
            Some(d) => r matches Some(x) && x@ == d@,
            None => if crate::chars::lowercase_text(trim_seq(action@)) == "read"@ {
                r matches Some(x) && x@ == all_scope@
            } else {
                r is None
            },
        },
{
    match document {
        Some(d) => Some(d.to_owned()),
        None => {
            let lowered = crate::chars::to_lowercase(trim(action));
            if str_eq(lowered.as_str(), "read") {
                Some(all_scope.to_owned())
            } else {
                None
            }
        },
    }
}

proof fn lemma_remove_distinct(s: Seq<Seq<char>>, v: Seq<char>)
    requires
        distinct_strings(s),
        s.contains(v),
    ensures
        !s.remove(s.index_of(v)).contains(v),
{
    let i = s.index_of(v);
    let t = s.remove(i);
    if t.contains(v) {
        let j = choose|j: int| 0 <= j < t.len() && t[j] == v;
        if j < i {
            assert(s[j] == v);
        } else {
            assert(s[j + 1] == v);
        }
    }
}

proof fn lemma_remove_after_update(s: Seq<(Seq<char>, DeferredBatch)>, k: Seq<char>, v: DeferredBatch)
    requires
        distinct_keys(s),
        has_key(s, k),
    ensures
        crate::strmap::seq_remove_entry(seq_insert_entry(s, k, v), k) == crate::strmap::seq_remove_entry(s, k),
{
    let i = crate::strmap::key_index(s, k);
    lemma_key_index(s, i);
    let t = seq_insert_entry(s, k, v);
    assert(t == s.update(i, (k, v)));
    assert(distinct_keys(t)) by {
        assert forall|a: int, b: int| 0 <= a < b < t.len() implies #[trigger] t[a].0 != #[trigger] t[b].0 by {
            if a == i {
                assert(s[b].0 != s[i].0);
            } else if b == i {
                assert(s[a].0 != s[i].0);
            } else {
                assert(s[a].0 != s[b].0);
            }
        }
    }
    assert(t[i].0 == k);
    lemma_key_index(t, i);
    assert(t.remove(i) =~= s.remove(i));
}

/// A status is cancellable exactly when it is one of
/// [`CANCELLABLE_STATUSES`].
pub proof fn lemma_cancellable_statuses(status: WorkStatus)
    ensures
        cancellable(status) == CANCELLABLE_STATUSES@.contains(status),
{
    let c = CANCELLABLE_STATUSES@;
    assert(c[0] == WorkStatus::Scheduled && c[1] == WorkStatus::Queued && c[2] == WorkStatus::Running
        && c[3] == WorkStatus::Delegated && c[4] == WorkStatus::Finalizing);
    if cancellable(status) {
        if status == WorkStatus::Scheduled {
            assert(c[0] == status);
        } else if status == WorkStatus::Queued {
            assert(c[1] == status);
        } else if status == WorkStatus::Running {
            assert(c[2] == status);
        } else if status == WorkStatus::Delegated {
            assert(c[3] == status);
        } else {
            assert(c[4] == status);
        }
    }
}

proof fn lemma_first_cancellable(works: Seq<WorkSummary>, i: int)
    requires
        0 <= i <= works.len(),
    ensures
        match first_cancellable_from(works, i) {
            Some(k) => i <= k < works.len() && CANCELLABLE_STATUSES@.contains(works[k].status) && forall|j: int|
                i <= j < k ==> !CANCELLABLE_STATUSES@.contains(#[trigger] works[j].status),
            None => forall|j: int| i <= j < works.len() ==> !CANCELLABLE_STATUSES@.contains(#[trigger] works[j].status),
        },
    decreases works.len() - i,
{
    if i < works.len() {
        lemma_cancellable_statuses(works[i].status);
        lemma_first_cancellable(works, i + 1);
        assert forall|j: int| i < j < works.len() implies cancellable(#[trigger] works[j].status)
            == CANCELLABLE_STATUSES@.contains(works[j].status) by {
            lemma_cancellable_statuses(works[j].status);
        }
    }
}

/// A cancellation with no id (or only whitespace) targets the first Work
/// whose status is one of [`CANCELLABLE_STATUSES`], and finds nothing only
/// when no Work has such a status; with an id, it targets that id, trimmed.
pub proof fn lemma_cancel_targets_the_first_live_work(requested: Seq<char>, works: Seq<WorkSummary>)
    ensures
        trim_seq(requested).len() > 0 ==> cancel_target_spec(requested, works) == Some(trim_seq(requested)),
        trim_seq(requested).len() == 0 ==> match cancel_target_spec(requested, works) {
            Some(t) => exists|k: int|
                0 <= k < works.len() && works[k].id@ == t && CANCELLABLE_STATUSES@.contains(works[k].status)
                    && forall|j: int| 0 <= j < k ==> !CANCELLABLE_STATUSES@.contains(#[trigger] works[j].status),
            None => forall|j: int| 0 <= j < works.len() ==> !CANCELLABLE_STATUSES@.contains(#[trigger] works[j].status),
        },
{
    lemma_first_cancellable(works, 0);
}

} // verus!
