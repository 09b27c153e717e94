//! Answering a permission question and cancelling Work, step by step.
//!
//! A `respond_agent_permission` call is decided by [`respond_permission_at`]:
//! the request must name a permission, carry a valid decision and rest on
//! something the user actually said this turn; the permission must still be
//! pending; and someone must be able to deliver the answer. The session's
//! policy takes the decision at once, and the mode it replaced is handed
//! back so the host can restore it if delivery fails.
//!
//! A `cancel_agent_task` call picks its target with
//! [`cancel_target`](crate::tools::handler::cancel_target) and is answered
//! from what the Work manager's cancellation returned by [`cancel_answer`].

use vstd::prelude::*;
use crate::clock::Clock;
use crate::permission::{is_prune_of, key_spec, PermissionDecision, PermissionMode, SessionPermissionPolicy, SessionState};
use crate::text::{bounded_utf16, take_utf16, trim_seq};
use crate::tools::handler::{
    consumes_notification, in_flight_query, permission_request, permission_work, queries, status_question, waits_on,
    NotificationStatus, WorkStatus, WorkSummary, ACTIVITY_DETAIL_CLIP, OBJECTIVE_CLIP, QUERY_OBJECTIVE_CLIP,
    RESULT_CLIP, STATUS_QUERY_PRIORITY,
};

verus! {

/// How a `respond_agent_permission` call is answered.
#[derive(Clone, Debug, PartialEq, Eq)]
pub enum PermissionAnswer {
    /// No permission id, no valid decision, or nothing the user said this
    /// turn.
    Invalid,
    /// The permission is not pending any more.
    NotPending,
    /// No one can deliver the answer.
    Unavailable,
    /// The decision was taken.
    Submitted {
        /// The permission.
        authorization_id: String,
        /// The decision.
        decision: PermissionDecision,
    },
}

/// What a permission response decided, and the session mode it replaced
/// when it changed the policy.
#[derive(Clone, Debug, PartialEq, Eq)]
pub struct PermissionReceipt {
    /// The answer.
    pub answer: PermissionAnswer,
    /// The mode to restore if the decision cannot be delivered.
    pub previous: Option<PermissionMode>,
}

/// Whether a permission response is well formed: a permission id, a valid
/// decision word, and a non-blank transcript, all trimmed.
pub open spec fn permission_response_valid(authorization_id: Seq<char>, decision: Seq<char>, transcript: Seq<char>) -> bool {
    let d = trim_seq(decision);
    trim_seq(authorization_id).len() > 0 && trim_seq(transcript).len() > 0 && (d == "always"@ || d == "reject"@)
}

/// The decision a valid decision word names.
pub open spec fn decision_named(decision: Seq<char>) -> PermissionDecision {
    if trim_seq(decision) == "always"@ {
        PermissionDecision::Always
    } else {
        PermissionDecision::Reject
    }
}

/// Whether some Work in `works` waits on permission `id`.
pub open spec fn permission_waited_on(works: Seq<WorkSummary>, id: Seq<char>) -> bool {
    exists|j: int| 0 <= j < works.len() && waits_on(#[trigger] works[j], id)
}

/// Decide a permission response for `(owner_id, session_id)` at `now`: the
/// checks in order, then the policy takes the decision, and the mode it
/// replaced (after pruning at `now`) is returned for a rollback.
pub fn respond_permission_at<C: Clock>(
    policy: &mut SessionPermissionPolicy<C>,
    owner_id: &str,
    session_id: &str,
    authorization_id: &str,
    decision: &str,
    transcript: &str,
    works: &[WorkSummary],
    responder_available: bool,
    now: i64,
) -> (r: PermissionReceipt)
    requires
        old(policy).wf(),
    ensures
        final(policy).wf(),
        final(policy).ttl_ms_spec() == old(policy).ttl_ms_spec(),
        final(policy).max_sessions_spec() == old(policy).max_sessions_spec(),
        !permission_response_valid(authorization_id@, decision@, transcript@) ==> r == (PermissionReceipt {
            answer: PermissionAnswer::Invalid,
            previous: None,
        }) && final(policy)@ == old(policy)@,
        permission_response_valid(authorization_id@, decision@, transcript@)
            && !permission_waited_on(works@, trim_seq(authorization_id@)) ==> r == (PermissionReceipt {
            answer: PermissionAnswer::NotPending,
            previous: None,
        }) && final(policy)@ == old(policy)@,
        permission_response_valid(authorization_id@, decision@, transcript@)
            && permission_waited_on(works@, trim_seq(authorization_id@)) && !responder_available ==> r == (
        PermissionReceipt { answer: PermissionAnswer::Unavailable, previous: None }) && final(policy)@ == old(policy)@,
        permission_response_valid(authorization_id@, decision@, transcript@)
            && permission_waited_on(works@, trim_seq(authorization_id@)) && responder_available ==> {
            let key = key_spec(owner_id@, session_id@);
            let d = decision_named(decision@);
            &&& r.answer matches PermissionAnswer::Submitted { authorization_id: id, decision: taken }
                && id@ == trim_seq(authorization_id@) && taken == d
            &&& exists|pruned: Map<Seq<char>, SessionState>|
                #[trigger] is_prune_of(old(policy)@, pruned, now, old(policy).ttl_ms_spec(), old(policy).max_sessions_spec())
                && r.previous == Some(if pruned.contains_key(key) { pruned[key].mode } else { PermissionMode::Ask })
                && is_prune_of(
                    pruned.insert(key, SessionState { mode: d.mode_spec(), updated_at: now }),
                    final(policy)@,
                    now,
                    old(policy).ttl_ms_spec(),
                    old(policy).max_sessions_spec(),
                )
        },
{
    let request = permission_request(authorization_id, decision, transcript);
    let (id, taken) = match request {
        None => {
            return PermissionReceipt { answer: PermissionAnswer::Invalid, previous: None };
        },
        Some(pair) => pair,
    };
    proof {
        reveal_strlit("always");
        reveal_strlit("reject");
    }
    match permission_work(works, id.as_str()) {
        None => {
            return PermissionReceipt { answer: PermissionAnswer::NotPending, previous: None };
        },
        Some(_) => {},
    }
    if !responder_available {
        return PermissionReceipt { answer: PermissionAnswer::Unavailable, previous: None };
    }
    let previous = policy.mode_at(owner_id, session_id, now);
    policy.set_mode_at(owner_id, session_id, taken.mode(), now);
    PermissionReceipt { answer: PermissionAnswer::Submitted { authorization_id: id, decision: taken }, previous: Some(previous) }
}

/// When the decision a receipt took could not be delivered, restore the
/// session mode it replaced, stamped `now`: the permission is still pending
/// on the backend and will be asked again. A receipt that changed nothing
/// restores nothing.
pub fn restore_after_failed_delivery_at<C: Clock>(
    policy: &mut SessionPermissionPolicy<C>,
    owner_id: &str,
    session_id: &str,
    receipt: &PermissionReceipt,
    now: i64,
)
    requires
        old(policy).wf(),
    ensures
        final(policy).wf(),
        final(policy).ttl_ms_spec() == old(policy).ttl_ms_spec(),
        final(policy).max_sessions_spec() == old(policy).max_sessions_spec(),
        match receipt.previous {
            Some(mode) => is_prune_of(
                old(policy)@.insert(key_spec(owner_id@, session_id@), SessionState { mode, updated_at: now }),
                final(policy)@,
                now,
                old(policy).ttl_ms_spec(),
                old(policy).max_sessions_spec(),
            ),
            None => final(policy)@ == old(policy)@,
        },
{
    match receipt.previous {
        Some(mode) => {
            policy.set_mode_at(owner_id, session_id, mode, now);
        },
        None => {},
    }
}

/// How a `cancel_agent_task` call is answered.
#[derive(Clone, Debug, PartialEq, Eq)]
pub enum CancelAnswer {
    /// Nothing to cancel.
    NotFound,
    /// The target is not active.
    NotActive {
        /// The target.
        work_id: String,
    },
    /// The target was cancelled.
    Cancelled {
        /// The Work.
        work_id: String,
    },
    /// The cancellation did not take; the Work manager's error, when it gave
    /// one.
    Failed {
        /// The error.
        error: Option<String>,
    },
}

/// The answer for a cancellation of `target` (`None`: nothing to cancel)
/// that returned `cancelled` (`None`: the target was not active; otherwise
/// the Work's id, status and error).
pub fn cancel_answer(target: Option<String>, cancelled: Option<(String, WorkStatus, Option<String>)>) -> (r: CancelAnswer)
    ensures
        r == (match target {
            None => CancelAnswer::NotFound,
            Some(t) => match cancelled {
                None => CancelAnswer::NotActive { work_id: t },
                Some((id, status, error)) => if status == WorkStatus::Cancelled {
                    CancelAnswer::Cancelled { work_id: id }
                } else {
                    CancelAnswer::Failed { error }
                },
            },
        }),
{
    match target {
        None => CancelAnswer::NotFound,
        Some(t) => match cancelled {
            None => CancelAnswer::NotActive { work_id: t },
            Some((id, status, error)) => match status {
                WorkStatus::Cancelled => CancelAnswer::Cancelled { work_id: id },
                _ => CancelAnswer::Failed { error },
            },
        },
    }
}

/// The clipped fields a status answer about one Work carries.
#[derive(Clone, Debug, PartialEq, Eq)]
pub struct StatusReport {
    /// The objective, clipped.
    pub objective: String,
    /// The last activity's detail, clipped, when there was an activity.
    pub last_detail: Option<String>,
    /// The result, clipped, for a completed Work.
    pub result: Option<String>,
    /// The error, for a failed or cancelled Work that reported one.
    pub error: Option<String>,
    /// Whether answering delivers the Work's pending notification.
    pub consumes_notification: bool,
}

/// The status answer's fields for a Work in `status` with this
/// `objective`, `result`, `error`, last activity detail (`None`: no activity;
/// `Some(None)`: an activity without detail) and notification state.
pub fn status_report(
    status: WorkStatus,
    notification: NotificationStatus,
    objective: &str,
    result: Option<&str>,
    error: Option<&str>,
    last_detail: Option<Option<&str>>,
) -> (r: StatusReport)
    ensures
        r.objective@ == take_utf16(objective@, OBJECTIVE_CLIP as nat),
        match last_detail {
            None => r.last_detail is None,
            Some(None) => (r.last_detail matches Some(d) && d@.len() == 0),
            Some(Some(d)) => (r.last_detail matches Some(x) && x@ == take_utf16(d@, ACTIVITY_DETAIL_CLIP as nat)),
        },
        status == WorkStatus::Completed ==> (r.result matches Some(x) && x@ == take_utf16(
            match result {
                Some(v) => v@,
                None => Seq::<char>::empty(),
            },
            RESULT_CLIP as nat,
        )),
        status != WorkStatus::Completed ==> r.result is None,
        (status == WorkStatus::Failed || status == WorkStatus::Cancelled) ==> match error {
            Some(e) => (r.error matches Some(x) && x@ == e@),
            None => r.error is None,
        },
        !(status == WorkStatus::Failed || status == WorkStatus::Cancelled) ==> r.error is None,
        r.consumes_notification == ((status == WorkStatus::Completed || status == WorkStatus::Failed) && (notification
            == NotificationStatus::Pending || notification == NotificationStatus::Delivering)),
{
    let clipped_objective = bounded_utf16(objective, OBJECTIVE_CLIP);
    let detail = match last_detail {
        None => None,
        Some(None) => Some(String::new()),
        Some(Some(d)) => Some(bounded_utf16(d, ACTIVITY_DETAIL_CLIP)),
    };
    let clipped_result = match status {
        WorkStatus::Completed => Some(bounded_utf16(
            match result {
                Some(v) => v,
                None => "",
            },
            RESULT_CLIP,
        )),
        _ => None,
    };
    proof {
        reveal_strlit("");
    }
    let reported_error = match status {
        WorkStatus::Failed | WorkStatus::Cancelled => match error {
            Some(e) => Some(e.to_owned()),
            None => None,
        },
        _ => None,
    };
    StatusReport {
        objective: clipped_objective,
        last_detail: detail,
        result: clipped_result,
        error: reported_error,
        consumes_notification: consumes_notification(status, notification),
    }
}

/// What a status question about a delegated Work does.
#[derive(Clone, Debug, PartialEq, Eq)]
pub enum QueryStep {
    /// A query about this Work is already running: answer with it and
    /// create nothing.
    AlreadyQuerying {
        /// The running query.
        query_work_id: String,
    },
    /// Create a control Work under the delegated one.
    Create {
        /// The delegated Work the query is about.
        parent_work_id: String,
        /// The scheduler priority, [`STATUS_QUERY_PRIORITY`].
        priority: i64,
        /// The delegated Work's objective, clipped to
        /// [`QUERY_OBJECTIVE_CLIP`], for the query's own objective.
        objective: String,
        /// The question the query's objective quotes: the user's, or the
        /// catalog's default prompt question when there is none.
        prompt_question: String,
        /// The question handed to the backend: the user's, or the catalog's
        /// fallback status question when there is none.
        question: String,
    },
}

/// Decide a status question about the delegated Work `work_id` with
/// `objective`, against the session's active Work `works`: the first control
/// Work already querying it answers; otherwise a query is created, asking
/// the user's question (`supplied`, else the turn's `transcript`, trimmed)
/// or, when there is none, `default_prompt` in the objective and
/// `fallback_question` for the backend.
pub fn plan_status_query(
    works: &[WorkSummary],
    work_id: &str,
    objective: &str,
    supplied: &str,
    transcript: &str,
    default_prompt: &str,
    fallback_question: &str,
) -> (r: QueryStep)
    ensures
        (exists|i: int| 0 <= i < works@.len() && queries(#[trigger] works@[i], work_id@)) ==> exists|i: int|
            0 <= i < works@.len() && queries(works@[i], work_id@) && (forall|j: int| 0 <= j < i ==> !queries(
                #[trigger] works@[j],
                work_id@,
            )) && r == (QueryStep::AlreadyQuerying { query_work_id: works@[i].id }),
        (forall|i: int| 0 <= i < works@.len() ==> !queries(#[trigger] works@[i], work_id@)) ==> ({
            let q = if trim_seq(supplied@).len() > 0 { trim_seq(supplied@) } else { trim_seq(transcript@) };
            r matches QueryStep::Create { parent_work_id, priority, objective: clipped, prompt_question, question }
                && parent_work_id@ == work_id@
                && priority == STATUS_QUERY_PRIORITY
                && clipped@ == take_utf16(objective@, QUERY_OBJECTIVE_CLIP as nat)
                && prompt_question@ == (if q.len() > 0 { q } else { default_prompt@ })
                && question@ == (if q.len() > 0 { q } else { fallback_question@ })
        }),
{
    match in_flight_query(works, work_id) {
        Some(i) => QueryStep::AlreadyQuerying { query_work_id: works[i].id.clone() },
        None => {
            let q = status_question(supplied, transcript);
            let asked = q.unicode_len() > 0;
            let prompt_question = if asked { q.clone() } else { default_prompt.to_owned() };
            let question = if asked { q } else { fallback_question.to_owned() };
            QueryStep::Create {
                parent_work_id: work_id.to_owned(),
                priority: STATUS_QUERY_PRIORITY,
                objective: bounded_utf16(objective, QUERY_OBJECTIVE_CLIP),
                prompt_question,
                question,
            }
        },
    }
}

} // verus!
