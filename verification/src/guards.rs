//! Response guards: the one correction a finished response may earn.
//!
//! A guard inspects a response that has already completed and, at most once,
//! asks the model to reconsider. It never executes a tool and never speaks on
//! its own: it supplies the instructions for one extra response, and the
//! gateway declines to send even that unless [`is_response_guard_turn_current`]
//! still holds. The first match is the only correction allowed for one
//! response.

use vstd::prelude::*;
use crate::locale::{Locale, LocalizedText};
use crate::pattern::{is_match, regex_match};
use crate::response::ResponseOrigin;
use crate::text::{trim, trim_seq, utf16_len, utf16_units};

verus! {

/// What a finished response looked like.
#[derive(Clone, Debug, PartialEq)]
pub struct GuardObservation {
    /// Where the response came from.
    pub origin: ResponseOrigin,
    /// Whether it authored a tool call.
    pub has_function_call: bool,
    /// Whether `response.done` reported a failure status.
    pub failed: bool,
    /// Whether the response was cancelled or superseded.
    pub suppressed: bool,
    /// The settled assistant transcript.
    pub transcript: String,
}

impl GuardObservation {
    /// A model response with this transcript and no other mark.
    pub fn new(transcript: &str) -> (r: Self)
        ensures
            r.origin == ResponseOrigin::Model,
            !r.has_function_call,
            !r.failed,
            !r.suppressed,
            r.transcript@ == transcript@,
    {
        GuardObservation {
            origin: ResponseOrigin::Model,
            has_function_call: false,
            failed: false,
            suppressed: false,
            transcript: transcript.to_owned(),
        }
    }
}

/// A guard's outcome.
#[derive(Clone, Debug, PartialEq, Eq)]
pub struct GuardDecision {
    /// Which guard matched.
    pub guard_id: &'static str,
    /// The instructions for the one corrective response.
    pub instructions: String,
}

/// One registered guard.
pub trait ResponseGuard {
    /// A stable identifier, reported on the decision.
    fn id(&self) -> &'static str;

    /// The instructions this guard supplies, in `locale`.
    fn instructions(&self, locale: Locale) -> String;

    /// Whether this observation earns a correction.
    fn matches(&self, observation: &GuardObservation) -> bool;
}

/// What one guard answered about one observation.
#[derive(Clone, Debug, PartialEq, Eq)]
pub struct GuardAnswer {
    /// The id it reported.
    pub id: &'static str,
    /// The instructions it supplied.
    pub instructions: String,
    /// Whether it matched.
    pub matched: bool,
}

/// Whether an answer earns a correction: a non-empty id, non-blank
/// instructions, and a match.
pub open spec fn answer_fires(answer: GuardAnswer) -> bool {
    &&& answer.id@.len() > 0
    &&& trim_seq(answer.instructions@).len() > 0
    &&& answer.matched
}

/// `r` is the correction of the first answer in `answers` that fires, with
/// its instructions trimmed, or `None` when none fires.
pub open spec fn first_firing_outcome(answers: Seq<GuardAnswer>, r: Option<GuardDecision>) -> bool {
    match r {
        None => forall|i: int| 0 <= i < answers.len() ==> !answer_fires(#[trigger] answers[i]),
        Some(decision) => exists|i: int|
            0 <= i < answers.len()
            && answer_fires(answers[i])
            && decision.guard_id@ == answers[i].id@
            && decision.instructions@ == trim_seq(answers[i].instructions@)
            && forall|j: int| 0 <= j < i ==> !answer_fires(#[trigger] answers[j]),
    }
}

/// The correction of the first answer that fires.
pub fn first_firing(answers: &[GuardAnswer]) -> (r: Option<GuardDecision>)
    ensures
        first_firing_outcome(answers@, r),
{
    let mut k: usize = 0;
    while k < answers.len()
        invariant
            k <= answers@.len(),
            forall|j: int| 0 <= j < k ==> !answer_fires(#[trigger] answers@[j]),
        decreases answers.len() - k,
    {
        let answer = &answers[k];
        let instructions = trim(answer.instructions.as_str());
        if answer.id.unicode_len() > 0 && instructions.unicode_len() > 0 && answer.matched {
            assert(answer_fires(answers@[k as int]));
            return Some(GuardDecision { guard_id: answer.id, instructions: instructions.to_owned() });
        }
        k = k + 1;
    }
    None
}

/// The action-promise guard's id.
pub const ACTION_PROMISE_GUARD_ID: &'static str = "action-promise";

/// The longest transcript, in UTF-16 units, the action-promise guard will
/// look at. The guard recognizes one short, explicit promise; a long sentence
/// is by construction not one.
pub const ACTION_PROMISE_MAX_CHARS: usize = 40;

/// A short, explicit promise to go and do something.
pub const ACTION_PROMISE_PATTERN: &'static str = "^(?:(?:好的?|好|行|明白|收到)[，,\\s]*)?(?:稍等[，,\\s]*)?(?:我(?:来|去|先去|马上|立刻|现在(?:就)?|这就)(?:帮你|替你)?|让我来|马上(?:去|来)?|现在就(?:去|来)?)(?:查(?:一下)?|查询|查找|看(?:一下)?|检查|确认|核实|搜索|排查|调查|处理|修改|调整|创建|新建|运行|跑(?:一下)?|测试|验证)[^，,。；;：:！？!?\\n]{0,28}[。！!]?$";

/// A question asking permission rather than a promise.
pub const CONFIRMATION_REQUEST_PATTERN: &'static str = "[？?]\\s*$|好吗|可以吗|行吗|要不要|需要我|是否需要|要我(?:现在|先)?(?:去|来|帮)";

/// Words that say an answer was actually delivered.
pub const DELIVERED_CONTENT_PATTERN: &'static str = "(?:[：:]|结果|答案|查到|找到|发现|显示|已经(?:完成|处理|修改|创建|运行|测试)|原因是|因为)";

/// The outcome on a transcript of the right length, from the three pattern
/// results: a promise, not a question, and no delivered answer. A pattern
/// that could not be evaluated (`None`) means no correction.
pub open spec fn promise_verdict_spec(promise: Option<bool>, question: Option<bool>, delivered: Option<bool>) -> bool {
    promise == Some(true) && question == Some(false) && delivered == Some(false)
}

/// Decide from the three pattern results whether a transcript is a bare
/// promise. The checks compose in a fixed order: a
/// question is never a promise, and a sentence that both promises and
/// delivers is a delivery.
pub fn promise_verdict(promise: Option<bool>, question: Option<bool>, delivered: Option<bool>) -> (r: bool)
    ensures
        r == promise_verdict_spec(promise, question, delivered),
{
    match (promise, question, delivered) {
        (Some(promise), Some(question), Some(delivered)) => {
            if question {
                false
            } else if delivered {
                false
            } else {
                promise
            }
        },
        _ => false,
    }
}

/// Whether `transcript` is a bare promise to execute work.
pub open spec fn promises_action_spec(transcript: Seq<char>) -> bool {
    let content = trim_seq(transcript);
    &&& content.len() > 0
    &&& utf16_units(content) <= ACTION_PROMISE_MAX_CHARS
    &&& promise_verdict_spec(
        regex_match(ACTION_PROMISE_PATTERN@, content),
        regex_match(CONFIRMATION_REQUEST_PATTERN@, content),
        regex_match(DELIVERED_CONTENT_PATTERN@, content),
    )
}

/// Whether `transcript` is a bare promise to execute work: bound the length,
/// then reject a question, reject a delivered answer, and match the promise.
pub fn promises_action(transcript: &str) -> (r: bool)
    ensures
        r == promises_action_spec(transcript@),
{
    let content = trim(transcript);
    if content.unicode_len() == 0 {
        return false;
    }
    if utf16_len(content) > ACTION_PROMISE_MAX_CHARS {
        return false;
    }
    let question = is_match(CONFIRMATION_REQUEST_PATTERN, content);
    let delivered = is_match(DELIVERED_CONTENT_PATTERN, content);
    let promise = is_match(ACTION_PROMISE_PATTERN, content);
    promise_verdict(promise, question, delivered)
}

/// The guard that catches a promise the model never acted on.
///
/// It is deliberately not a general intent classifier: compound sentences and
/// delivered answers remain the model's own responsibility.
#[derive(Clone, Debug, PartialEq, Eq)]
pub struct ActionPromiseGuard {
    /// The corrective instructions, in every language.
    pub instructions: LocalizedText,
}

impl ActionPromiseGuard {
    /// The guard, with its corrective instructions.
    pub fn new(instructions: LocalizedText) -> (r: Self)
        ensures
            r.instructions == instructions,
    {
        ActionPromiseGuard { instructions }
    }
}

/// Whether the action-promise guard corrects `observation`: a model response
/// that called no tool, did not fail, was not suppressed, and is a bare
/// promise.
pub open spec fn action_promise_matches(observation: GuardObservation) -> bool {
    &&& observation.origin == ResponseOrigin::Model
    &&& !observation.has_function_call
    &&& !observation.failed
    &&& !observation.suppressed
    &&& promises_action_spec(observation.transcript@)
}

impl ResponseGuard for ActionPromiseGuard {
    fn id(&self) -> (r: &'static str)
        ensures
            r@ == ACTION_PROMISE_GUARD_ID@,
    {
        ACTION_PROMISE_GUARD_ID
    }

    fn instructions(&self, locale: Locale) -> (r: String)
        ensures
            r@ == self.instructions.text(locale),
    {
        self.instructions.get(locale).to_owned()
    }

    fn matches(&self, observation: &GuardObservation) -> (r: bool)
        ensures
            r == action_promise_matches(*observation),
    {
        match observation.origin {
            ResponseOrigin::Model => {},
            _ => {
                return false;
            },
        }
        if observation.has_function_call || observation.failed || observation.suppressed {
            return false;
        }
        promises_action(observation.transcript.as_str())
    }
}

/// Run the guards in order and return the first match's correction. A guard
/// with an empty id or blank instructions is skipped rather than returning a
/// correction with nothing in it. Guards after the first that fires are not
/// asked.
pub fn evaluate_response_guards(
    observation: &GuardObservation,
    locale: Locale,
    guards: &[&dyn ResponseGuard],
) -> (r: Option<GuardDecision>)
    ensures
        exists|answers: Seq<GuardAnswer>|
            answers.len() <= guards@.len()
            && (r is None ==> answers.len() == guards@.len())
            && #[trigger] first_firing_outcome(answers, r),
{
    let mut answers: Vec<GuardAnswer> = Vec::new();
    let mut k: usize = 0;
    while k < guards.len()
        invariant
            k <= guards@.len(),
            answers@.len() == k,
            forall|j: int| 0 <= j < k ==> !answer_fires(#[trigger] answers@[j]),
        decreases guards.len() - k,
    {
        let guard = guards[k];
        let answer = GuardAnswer {
            id: guard.id(),
            instructions: guard.instructions(locale),
            matched: guard.matches(observation),
        };
        let fires = answer.id.unicode_len() > 0 && trim(answer.instructions.as_str()).unicode_len() > 0 && answer.matched;
        answers.push(answer);
        if fires {
            assert(answer_fires(answers@[k as int]));
            let r = first_firing(answers.as_slice());
            assert(r is Some);
            assert(answers@.len() <= guards@.len() && first_firing_outcome(answers@, r));
            return r;
        }
        k = k + 1;
    }
    let r = first_firing(answers.as_slice());
    assert(first_firing_outcome(answers@, r));
    r
}

/// The registered guards, in match order: exactly the action-promise guard.
pub fn default_guards(action_promise: &ActionPromiseGuard) -> (r: Vec<&ActionPromiseGuard>)
    ensures
        r@ == seq![action_promise],
{
    let mut guards: Vec<&ActionPromiseGuard> = Vec::new();
    guards.push(action_promise);
    guards
}

/// Run the default guards: the action-promise guard, with its instructions.
pub fn evaluate_default_response_guards(
    observation: &GuardObservation,
    locale: Locale,
    action_promise: &ActionPromiseGuard,
) -> (r: Option<GuardDecision>)
    ensures
        match r {
            None => !(action_promise_matches(*observation)
                && trim_seq(action_promise.instructions.text(locale)).len() > 0),
            Some(decision) => action_promise_matches(*observation)
                && trim_seq(action_promise.instructions.text(locale)).len() > 0
                && decision.guard_id@ == ACTION_PROMISE_GUARD_ID@
                && decision.instructions@ == trim_seq(action_promise.instructions.text(locale)),
        },
{
    proof {
        reveal_strlit("action-promise");
    }
    let guards = default_guards(action_promise);
    let mut k: usize = 0;
    while k < guards.len()
        invariant
            guards@ == seq![action_promise],
            k <= guards@.len(),
            k > 0 ==> !(action_promise_matches(*observation)
                && trim_seq(action_promise.instructions.text(locale)).len() > 0),
        decreases guards.len() - k,
    {
        proof {
            reveal_strlit("action-promise");
        }
        let guard = guards[k];
        let id = guard.id();
        let text = guard.instructions(locale);
        let instructions = trim(text.as_str());
        if id.unicode_len() > 0 && instructions.unicode_len() > 0 && guard.matches(observation) {
            return Some(GuardDecision { guard_id: id, instructions: instructions.to_owned() });
        }
        k = k + 1;
    }
    None
}

/// The six inputs to [`is_response_guard_turn_current`].
#[derive(Clone, Debug, Default, PartialEq, Eq)]
pub struct GuardTurnState {
    /// The realtime frontend is still the one that produced the response.
    pub same_frontend: bool,
    /// This client still owns the speaker.
    pub output_enabled: bool,
    /// The user is talking right now.
    pub user_speaking: bool,
    /// The turn the response answered.
    pub response_turn_id: String,
    /// That turn's generation.
    pub response_turn_generation: i64,
    /// The turn the gateway has committed to.
    pub committed_turn_id: String,
    /// That turn's generation.
    pub committed_turn_generation: i64,
}

/// Whether the turn a guard wants to correct is still the live one: the same
/// frontend, output still owned, the user not speaking, and a non-empty
/// response turn equal, id and generation, to the committed one.
pub open spec fn guard_turn_current_spec(state: GuardTurnState) -> bool {
    &&& state.same_frontend
    &&& state.output_enabled
    &&& !state.user_speaking
    &&& state.response_turn_id@.len() > 0
    &&& state.response_turn_id@ == state.committed_turn_id@
    &&& state.response_turn_generation == state.committed_turn_generation
}

/// Whether the turn a guard wants to correct is still the live one.
pub fn is_response_guard_turn_current(state: &GuardTurnState) -> (r: bool)
    ensures
        r == guard_turn_current_spec(*state),
{
    state.same_frontend && state.output_enabled && !state.user_speaking
        && state.response_turn_id.as_str().unicode_len() > 0
        && crate::chars::str_eq(state.response_turn_id.as_str(), state.committed_turn_id.as_str())
        && state.response_turn_generation == state.committed_turn_generation
}

} // verus!
