//! The realtime frontend's outcomes and request metadata, as the voice layer
//! consumes them.
//!
//! A response settles as a value, not an error: completed, failed, skipped,
//! cancelled or timed out. The distinction matters to the caller: a skipped
//! announcement must be retried, a completed one must wait for playback, and
//! a cancelled one must be released.

use vstd::prelude::*;

verus! {

/// Why a response settled the way it did.
#[derive(Clone, Copy, Debug, Default, PartialEq, Eq, Hash)]
pub enum SettlePhase {
    /// Nothing more specific.
    #[default]
    Unspecified,
    /// Waiting for `response.created`.
    Start,
    /// Waiting for `response.done`.
    Completion,
    /// Building the conversation item that precedes the response.
    Input,
    /// A second response was already waiting for `response.created`.
    Correlation,
    /// A `should_speak` / `should_create` predicate declined.
    Deduplicated,
    /// The response streamed nothing for the inactivity budget.
    Inactivity,
}

/// How one enqueued response ended.
#[derive(Clone, Debug, Default, PartialEq, Eq)]
pub struct ResponseOutcome {
    /// The provider generated the whole response.
    pub completed: bool,
    /// The provider refused it, or `response.done` reported a failure.
    pub failed: bool,
    /// A predicate declined to create it. Not a failure: the caller asked for
    /// it to be skipped.
    pub skipped: bool,
    /// The queue generation moved on before it ran.
    pub cancelled: bool,
    /// It never started, or never finished.
    pub timed_out: bool,
    /// Which phase it settled in.
    pub phase: SettlePhase,
    /// The provider's response id, once one exists.
    pub response_id: Option<String>,
    /// The `response.done` status, for a failure.
    pub status: Option<String>,
    /// Whether the accompanying context item was written into the
    /// conversation.
    pub context_injected: bool,
}

impl ResponseOutcome {
    /// A response the provider generated in full.
    pub fn completed(response_id: &str) -> (r: Self)
        ensures
            r.completed && !r.failed && !r.skipped && !r.cancelled && !r.timed_out,
            r.phase == SettlePhase::Unspecified,
            r.response_id matches Some(id) && id@ == response_id@,
            r.status is None,
            !r.context_injected,
    {
        ResponseOutcome {
            completed: true,
            failed: false,
            skipped: false,
            cancelled: false,
            timed_out: false,
            phase: SettlePhase::Unspecified,
            response_id: Some(response_id.to_owned()),
            status: None,
            context_injected: false,
        }
    }

    /// A response a predicate declined to create.
    pub fn skipped() -> (r: Self)
        ensures
            r.skipped && !r.completed && !r.failed && !r.cancelled && !r.timed_out,
            r.phase == SettlePhase::Deduplicated,
            r.response_id is None,
            r.status is None,
            !r.context_injected,
    {
        ResponseOutcome {
            completed: false,
            failed: false,
            skipped: true,
            cancelled: false,
            timed_out: false,
            phase: SettlePhase::Deduplicated,
            response_id: None,
            status: None,
            context_injected: false,
        }
    }

    /// A response the provider refused.
    pub fn failed(phase: SettlePhase) -> (r: Self)
        ensures
            r.failed && !r.completed && !r.skipped && !r.cancelled && !r.timed_out,
            r.phase == phase,
            r.response_id is None,
            r.status is None,
            !r.context_injected,
    {
        ResponseOutcome {
            completed: false,
            failed: true,
            skipped: false,
            cancelled: false,
            timed_out: false,
            phase,
            response_id: None,
            status: None,
            context_injected: false,
        }
    }
}

/// The correlation metadata attached to a response the gateway creates,
/// echoed back on `response.created` and spread into every transcript and
/// response frame.
#[derive(Clone, Debug, Default, PartialEq, Eq)]
pub struct ResponseRequestContext {
    /// The turn this response belongs to.
    pub turn_id: Option<String>,
    /// The single Work, when there is exactly one.
    pub task_id: Option<String>,
    /// Every Work in an announcement batch.
    pub task_ids: Vec<String>,
    /// Every turn in an announcement batch.
    pub turn_ids: Vec<String>,
    /// The permission being asked about.
    pub authorization_id: Option<String>,
    /// The turn generation, for staleness.
    pub turn_generation: Option<i64>,
    /// The announcement batch's sequence number.
    pub delivery_sequence: Option<u64>,
    /// Whether answering this also discharges a Work notification.
    pub consumes_task_notification: bool,
}

/// Options for writing a tool result back.
#[derive(Clone, Debug, Default, PartialEq, Eq)]
pub struct FunctionOutputOptions {
    /// Whether to create a response after writing the output item: `false`
    /// for a stale call and for `enter_sleep`, where the model must see the
    /// output but nothing should be said about it.
    pub create_response: bool,
    /// Per-response instructions for that response.
    pub instructions: Option<String>,
}

impl FunctionOutputOptions {
    /// Write the output and let the provider close the turn.
    pub fn with_response() -> (r: Self)
        ensures
            r.create_response,
            r.instructions is None,
    {
        FunctionOutputOptions { create_response: true, instructions: None }
    }

    /// Write the output and say nothing.
    pub fn silent() -> (r: Self)
        ensures
            !r.create_response,
            r.instructions is None,
    {
        FunctionOutputOptions { create_response: false, instructions: None }
    }

    /// Attach per-response instructions.
    pub fn instructions(self, instructions: &str) -> (r: Self)
        ensures
            r.create_response == self.create_response,
            r.instructions matches Some(i) && i@ == instructions@,
    {
        FunctionOutputOptions { create_response: self.create_response, instructions: Some(instructions.to_owned()) }
    }
}

} // verus!
