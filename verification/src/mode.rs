//! Session-mode dispatch — which layers a session actually mounts.
//!
//! | | `dictation` | `direct` | `agent` | `interface` |
//! | --- | --- | --- | --- | --- |
//! | runs a model turn | no | yes | yes | yes |
//! | declares tools | none | control only | all | control only |
//! | delegates | no | no | yes | no |
//! | speaks | no | yes | yes | yes |
//!
//! Without a harness `agent` runs as `direct`; without a Context Engine
//! `interface` runs as `direct`; and each degradation is reported.

use vstd::prelude::*;
use crate::chars::str_eq;
use crate::tools::catalog::{SPAWN_THINKING, is_known_tool, is_tool_name};

verus! {

/// The mode a client chose on its `connect` frame, fixed for the session.
#[derive(Clone, Copy, Debug, PartialEq, Eq, Hash)]
pub enum SessionMode {
    /// Transcribe only: no model turn, no tools, no speech.
    Dictation,
    /// The model answers with the control tools and never delegates.
    Direct,
    /// The whole stack, delegation included.
    Agent,
    /// The model drives the host's UI with the control tools.
    Interface,
}

impl SessionMode {
    /// The four modes.
    pub const ALL: [SessionMode; 4] = [SessionMode::Dictation, SessionMode::Direct, SessionMode::Agent, SessionMode::Interface];

    /// The wire spelling.
    pub open spec fn wire(self) -> Seq<char> {
        match self {
            SessionMode::Dictation => "dictation"@,
            SessionMode::Direct => "direct"@,
            SessionMode::Agent => "agent"@,
            SessionMode::Interface => "interface"@,
        }
    }

    /// The wire spelling.
    pub fn as_str(self) -> (r: &'static str)
        ensures
            r@ == self.wire(),
    {
        match self {
            SessionMode::Dictation => "dictation",
            SessionMode::Direct => "direct",
            SessionMode::Agent => "agent",
            SessionMode::Interface => "interface",
        }
    }

    /// The mode a session runs as when no harness is configured: `agent`
    /// cannot delegate, so it runs as `direct`.
    pub open spec fn without_harness(self) -> SessionMode {
        match self {
            SessionMode::Agent => SessionMode::Direct,
            other => other,
        }
    }

    /// [`Self::without_harness`].
    pub fn degraded_without_harness(self) -> (r: SessionMode)
        ensures
            r == self.without_harness(),
    {
        match self {
            SessionMode::Agent => SessionMode::Direct,
            other => other,
        }
    }

    /// Whether the mode runs a model turn.
    pub open spec fn runs_model(self) -> bool {
        self != SessionMode::Dictation
    }

    /// Whether the mode runs a model turn.
    pub fn mounts_layer2(self) -> (r: bool)
        ensures
            r == self.runs_model(),
    {
        match self {
            SessionMode::Dictation => false,
            _ => true,
        }
    }

    /// Whether the mode speaks.
    pub fn speaks(self) -> (r: bool)
        ensures
            r == self.runs_model(),
    {
        match self {
            SessionMode::Dictation => false,
            _ => true,
        }
    }

    /// Whether the mode delegates to the Work queue.
    pub open spec fn delegates(self) -> bool {
        self == SessionMode::Agent
    }

    /// Whether the mode delegates to the Work queue.
    pub fn mounts_work_queue(self) -> (r: bool)
        ensures
            r == self.delegates(),
    {
        match self {
            SessionMode::Agent => true,
            _ => false,
        }
    }
}

impl Default for SessionMode {
    /// The whole stack.
    fn default() -> (r: Self)
        ensures
            r == SessionMode::Agent,
    {
        SessionMode::Agent
    }
}

/// Why a session runs as a different mode than it asked for.
#[derive(Clone, Copy, Debug, PartialEq, Eq, Hash)]
pub enum Degradation {
    /// `agent` was requested with no harness configured.
    NoHarness,
    /// `interface` was requested with no Context Engine mounted.
    ContextEngineUnavailable,
}

impl Degradation {
    /// The stable code.
    pub open spec fn code(self) -> Seq<char> {
        match self {
            Degradation::NoHarness => "no_harness"@,
            Degradation::ContextEngineUnavailable => "context_engine_unavailable"@,
        }
    }

    /// The stable code.
    pub fn as_str(self) -> (r: &'static str)
        ensures
            r@ == self.code(),
    {
        match self {
            Degradation::NoHarness => "no_harness",
            Degradation::ContextEngineUnavailable => "context_engine_unavailable",
        }
    }
}

/// The mode a session runs as.
pub open spec fn effective_mode(requested: SessionMode, harness_configured: bool, context_engine: bool) -> SessionMode {
    if requested == SessionMode::Interface && !context_engine {
        SessionMode::Direct
    } else if harness_configured {
        requested
    } else {
        requested.without_harness()
    }
}

/// The mode plan for one session.
#[derive(Clone, Copy, Debug, PartialEq, Eq, Hash)]
pub struct ModePlan {
    requested: SessionMode,
    effective: SessionMode,
    harness_configured: bool,
    context_engine: bool,
}

impl ModePlan {
    /// The mode the client asked for.
    pub closed spec fn requested_spec(&self) -> SessionMode {
        self.requested
    }

    /// The mode the session runs as.
    pub closed spec fn effective_spec(&self) -> SessionMode {
        self.effective
    }

    /// Whether a harness is configured.
    pub closed spec fn harness_spec(&self) -> bool {
        self.harness_configured
    }

    /// Whether a Context Engine is mounted.
    pub closed spec fn context_engine_spec(&self) -> bool {
        self.context_engine
    }

    /// The effective mode is the one the inputs decide.
    pub closed spec fn wf(&self) -> bool {
        self.effective == effective_mode(self.requested, self.harness_configured, self.context_engine)
    }

    /// Whether the session declares the tool `name`: nothing without a model
    /// turn; `spawn_thinking` only when it delegates; otherwise exactly the
    /// known tools.
    pub open spec fn declares_tool_spec(&self, name: Seq<char>) -> bool {
        if !self.effective_spec().runs_model() {
            false
        } else if name == SPAWN_THINKING@ {
            self.effective_spec().delegates()
        } else {
            is_known_tool(name)
        }
    }

    /// A plan for `requested`, with the Context Engine mounted.
    pub fn new(requested: SessionMode, harness_configured: bool) -> (r: Self)
        ensures
            r.wf(),
            r.requested_spec() == requested,
            r.harness_spec() == harness_configured,
            r.context_engine_spec(),
            r.effective_spec() == effective_mode(requested, harness_configured, true),
    {
        Self::with_context_engine(requested, harness_configured, true)
    }

    /// A plan for `requested` given both facts.
    pub fn with_context_engine(requested: SessionMode, harness_configured: bool, context_engine: bool) -> (r: Self)
        ensures
            r.wf(),
            r.requested_spec() == requested,
            r.harness_spec() == harness_configured,
            r.context_engine_spec() == context_engine,
            r.effective_spec() == effective_mode(requested, harness_configured, context_engine),
    {
        let effective = match requested {
            SessionMode::Interface if !context_engine => SessionMode::Direct,
            other => if harness_configured {
                other
            } else {
                other.degraded_without_harness()
            },
        };
        ModePlan { requested, effective, harness_configured, context_engine }
    }

    /// The mode the client asked for.
    pub fn requested(&self) -> (r: SessionMode)
        ensures
            r == self.requested_spec(),
    {
        self.requested
    }

    /// The mode the session runs as.
    pub fn effective(&self) -> (r: SessionMode)
        ensures
            r == self.effective_spec(),
    {
        self.effective
    }

    /// Whether a harness is configured.
    pub fn harness_configured(&self) -> (r: bool)
        ensures
            r == self.harness_spec(),
    {
        self.harness_configured
    }

    /// Whether a Context Engine is mounted.
    pub fn context_engine(&self) -> (r: bool)
        ensures
            r == self.context_engine_spec(),
    {
        self.context_engine
    }

    /// Why the session runs as another mode, if it does.
    pub open spec fn degradation_spec(&self) -> Option<Degradation> {
        if self.requested_spec() == SessionMode::Interface && !self.context_engine_spec() {
            Some(Degradation::ContextEngineUnavailable)
        } else if self.requested_spec() == SessionMode::Agent && !self.harness_spec() {
            Some(Degradation::NoHarness)
        } else {
            None
        }
    }

    /// Why the session runs as another mode, if it does.
    pub fn degradation(&self) -> (r: Option<Degradation>)
        ensures
            r == self.degradation_spec(),
    {
        match self.requested {
            SessionMode::Interface if !self.context_engine => Some(Degradation::ContextEngineUnavailable),
            SessionMode::Agent if !self.harness_configured => Some(Degradation::NoHarness),
            _ => None,
        }
    }

    /// Whether the session runs a model turn.
    pub fn runs_model_turn(&self) -> (r: bool)
        ensures
            r == self.effective_spec().runs_model(),
    {
        self.effective.mounts_layer2()
    }

    /// Whether the session speaks.
    pub fn speaks(&self) -> (r: bool)
        ensures
            r == self.effective_spec().runs_model(),
    {
        self.effective.speaks()
    }

    /// Whether the session delegates.
    pub fn delegates(&self) -> (r: bool)
        ensures
            r == self.effective_spec().delegates(),
    {
        self.effective.mounts_work_queue()
    }

    /// Whether the session announces finished Work: it delegates and speaks.
    pub fn announces(&self) -> (r: bool)
        ensures
            r == (self.effective_spec().delegates() && self.effective_spec().runs_model()),
    {
        self.delegates() && self.speaks()
    }

    /// Whether the session declares the tool `tool_name`.
    pub fn declares_tool(&self, tool_name: &str) -> (r: bool)
        ensures
            r == self.declares_tool_spec(tool_name@),
    {
        if !self.runs_model_turn() {
            return false;
        }
        if str_eq(tool_name, SPAWN_THINKING) {
            return self.delegates();
        }
        is_tool_name(tool_name)
    }
}

impl Default for ModePlan {
    /// The whole stack: `agent` with a harness.
    fn default() -> (r: Self)
        ensures
            r.wf(),
            r.requested_spec() == SessionMode::Agent,
            r.effective_spec() == SessionMode::Agent,
    {
        Self::new(SessionMode::Agent, true)
    }
}

/// A degradation is never silent: a plan runs as another mode than it asked
/// for exactly when it reports why — except that a harness is no constraint
/// on a mode that never delegates.
pub proof fn lemma_degradation_reported(requested: SessionMode, harness: bool, engine: bool)
    ensures
        (effective_mode(requested, harness, engine) != requested) == (
            (requested == SessionMode::Interface && !engine) || (requested == SessionMode::Agent && !harness)),
{
}

/// Dictation declares no tool at all, whatever else holds.
pub proof fn lemma_dictation_declares_nothing(plan: ModePlan, name: Seq<char>)
    requires
        plan.effective_spec() == SessionMode::Dictation,
    ensures
        !plan.declares_tool_spec(name),
{
}

} // verus!
