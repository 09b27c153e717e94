//! Delegating a request to a background agent, step by step.
//!
//! A `spawn_thinking` call is answered in three steps around the host's
//! asynchronous work: [`spawn_start`] checks what refuses a delegation
//! outright; the host then, only when the model sent no objective, waits for
//! the turn's transcript (see [`spawn_objective`]); [`ToolCallHandler::plan_submission`]
//! checks the objective, the turn's earlier submission and the referenced
//! attachments and builds what is submitted; after the Work manager answered,
//! [`ToolCallHandler::finish_submission`] records the Work against the turn
//! and says how the call is answered.

use vstd::prelude::*;
use crate::assets::{resolve_outcome, InputAssetRegistry};
use crate::clock::Clock;
use crate::input::anchors::string_views;
use crate::input::parts::{part_views, InputPart};
use crate::input::turn::{concat_groups, merge_input_parts, merge_spec};
use crate::strmap::{has_key, value_of};
use crate::text::{clean, clean_seq, trim, trim_seq};
use crate::tools::handler::{
    pending_permission_work, submission_key, submission_key_spec, BackendState, ToolCallHandler, WorkSummary,
};

verus! {

/// How a `spawn_thinking` call is answered.
#[derive(Clone, Debug, PartialEq, Eq)]
pub enum SpawnAnswer {
    /// A permission decision is owed first: the Work waiting on it and the
    /// permission.
    PermissionPending {
        /// The Work waiting.
        work_id: String,
        /// The permission it waits on.
        authorization_id: String,
    },
    /// No backend is configured.
    BackendNotConfigured,
    /// The backend is known to be down.
    BackendDisconnected,
    /// Neither the model nor the transcript supplied an objective.
    MissingObjective,
    /// The turn already submitted this Work.
    Duplicate {
        /// The Work.
        work_id: String,
    },
    /// A referenced attachment can no longer be reached.
    InvalidInputRef,
    /// The Work manager refused the submission.
    SubmissionFailed,
    /// The Work was accepted.
    Accepted {
        /// The Work.
        work_id: String,
    },
}

/// The first step's outcome: an answer, or the model's objective, cleaned
/// (possibly empty).
#[derive(Clone, Debug, PartialEq, Eq)]
pub enum SpawnStart {
    /// Answer the call now.
    Answer(SpawnAnswer),
    /// Go on with this objective.
    Objective(String),
}

/// What is submitted to the Work manager.
#[derive(Clone, Debug, PartialEq, Eq)]
pub struct SpawnSubmission {
    /// The objective.
    pub objective: String,
    /// The duplicate-submission key.
    pub submission_key: String,
    /// The turn's attachments, then the referenced earlier ones.
    pub input_parts: Vec<InputPart>,
}

/// Whether `w` waits on a permission that is still pending.
pub open spec fn waits_on_permission(w: WorkSummary) -> bool {
    w.authorization_id is Some && w.authorization_pending
}

/// The position of the first Work that waits on a pending permission.
pub open spec fn first_pending(works: Seq<WorkSummary>) -> Option<int>
    decreases works.len(),
{
    if works.len() == 0 {
        None
    } else {
        match first_pending(works.drop_last()) {
            Some(i) => Some(i),
            None => if waits_on_permission(works.last()) {
                Some(works.len() - 1)
            } else {
                None
            },
        }
    }
}

proof fn lemma_first_pending(works: Seq<WorkSummary>, found: Option<int>)
    requires
        match found {
            Some(k) => 0 <= k < works.len() && waits_on_permission(works[k])
                && forall|j: int| 0 <= j < k ==> !waits_on_permission(#[trigger] works[j]),
            None => forall|j: int| 0 <= j < works.len() ==> !waits_on_permission(#[trigger] works[j]),
        },
    ensures
        first_pending(works) == found,
    decreases works.len(),
{
    if works.len() > 0 {
        let d = works.drop_last();
        assert forall|j: int| 0 <= j < d.len() implies d[j] == works[j] by {}
        match found {
            Some(k) => {
                if k < works.len() - 1 {
                    assert forall|j: int| 0 <= j < k implies !waits_on_permission(#[trigger] d[j]) by {
                        assert(d[j] == works[j]);
                    }
                    assert(d[k] == works[k]);
                    lemma_first_pending(d, Some(k));
                } else {
                    assert forall|j: int| 0 <= j < d.len() implies !waits_on_permission(#[trigger] d[j]) by {
                        assert(d[j] == works[j]);
                    }
                    lemma_first_pending(d, None);
                }
            },
            None => {
                assert forall|j: int| 0 <= j < d.len() implies !waits_on_permission(#[trigger] d[j]) by {
                    assert(d[j] == works[j]);
                }
                lemma_first_pending(d, None);
            },
        }
    }
}

/// What the first step answers for the session's active `works`, the
/// backend `state` and the model's objective `arg`: a pending permission
/// comes first, then the backend, and otherwise the objective, cleaned.
pub open spec fn spawn_start_outcome(works: Seq<WorkSummary>, state: BackendState, arg: Seq<char>, r: SpawnStart) -> bool {
    match first_pending(works) {
        Some(i) => r matches SpawnStart::Answer(SpawnAnswer::PermissionPending { work_id, authorization_id })
            && work_id == works[i].id && works[i].authorization_id == Some(authorization_id),
        None => if !state.configured {
            r == SpawnStart::Answer(SpawnAnswer::BackendNotConfigured)
        } else if state.known && !state.ok {
            r == SpawnStart::Answer(SpawnAnswer::BackendDisconnected)
        } else {
            r matches SpawnStart::Objective(o) && o@ == clean_seq(arg)
        },
    }
}

/// The first step of a delegation: refuse it while a permission is pending
/// or the backend cannot take it; otherwise clean the model's objective.
pub fn spawn_start(works: &[WorkSummary], state: BackendState, objective_arg: &str) -> (r: SpawnStart)
    ensures
        spawn_start_outcome(works@, state, objective_arg@, r),
{
    match pending_permission_work(works) {
        Some(i) => {
            proof {
                lemma_first_pending(works@, Some(i as int));
            }
            let work = &works[i];
            let authorization_id = match &work.authorization_id {
                Some(a) => a.clone(),
                None => String::new(),
            };
            SpawnStart::Answer(SpawnAnswer::PermissionPending { work_id: work.id.clone(), authorization_id })
        },
        None => {
            proof {
                lemma_first_pending(works@, None);
            }
            if !state.configured {
                SpawnStart::Answer(SpawnAnswer::BackendNotConfigured)
            } else if state.known && !state.ok {
                SpawnStart::Answer(SpawnAnswer::BackendDisconnected)
            } else {
                SpawnStart::Objective(clean(objective_arg))
            }
        },
    }
}

/// The objective a delegation goes on with: the model's, cleaned, or, when
/// that is empty, the turn's original request, trimmed.
pub fn spawn_objective(cleaned: &str, original_request: &str) -> (r: String)
    ensures
        r@ == (if cleaned@.len() == 0 { trim_seq(original_request@) } else { cleaned@ }),
{
    if cleaned.unicode_len() == 0 {
        trim(original_request).to_owned()
    } else {
        cleaned.to_owned()
    }
}

impl ToolCallHandler {
    /// The second step of a delegation: an empty objective is refused; a
    /// turn that already submitted answers with that Work; the referenced
    /// attachments are resolved from `assets` (an unreachable one refuses
    /// the call); and the submission carries the objective, the
    /// duplicate-submission key, and the turn's attachments merged with the
    /// referenced ones.
    pub fn plan_submission<C: Clock>(
        &self,
        assets: &mut InputAssetRegistry<C>,
        objective: &str,
        turn_id: &str,
        call_id: &str,
        references: &[String],
        turn_parts: &[InputPart],
    ) -> (r: Result<SpawnSubmission, SpawnAnswer>)
        requires
            self.wf(),
            old(assets).wf(),
        ensures
            objective@.len() == 0 ==> r == Err::<SpawnSubmission, SpawnAnswer>(SpawnAnswer::MissingObjective)
                && *final(assets) == *old(assets),
            objective@.len() > 0 && has_key(self.turn_tasks_spec(), turn_id@) ==> (r matches Err(
                SpawnAnswer::Duplicate { work_id },
            ) && work_id == value_of(self.turn_tasks_spec(), turn_id@)) && *final(assets) == *old(assets),
            objective@.len() > 0 && !has_key(self.turn_tasks_spec(), turn_id@) ==> exists|now: i64, resolved: Result<Vec<InputPart>, crate::assets::AssetError>|
                #[trigger] resolve_outcome(*old(assets), *final(assets), self.owner_spec(), self.session_spec(), string_views(references@), now, resolved)
                && match resolved {
                    Err(_) => r == Err::<SpawnSubmission, SpawnAnswer>(SpawnAnswer::InvalidInputRef),
                    Ok(historical) => r matches Ok(s) && s.objective@ == objective@
                        && s.submission_key@ == submission_key_spec(self.session_spec(), turn_id@, call_id@)
                        && part_views(s.input_parts@) == merge_spec(concat_groups(seq![part_views(turn_parts@), part_views(historical@)])),
                },
    {
        if objective.unicode_len() == 0 {
            return Err(SpawnAnswer::MissingObjective);
        }
        match self.turn_task(turn_id) {
            Some(existing) => {
                return Err(SpawnAnswer::Duplicate { work_id: existing.clone() });
            },
            None => {},
        }
        let resolved = assets.resolve(self.owner_id(), self.session_id(), references);
        let ghost resolved_view = resolved;
        match resolved {
            Err(_) => {
                proof {
                    assert(resolve_outcome(*old(assets), *assets, self.owner_spec(), self.session_spec(), string_views(references@), choose|now: i64| resolve_outcome(*old(assets), *assets, self.owner_spec(), self.session_spec(), string_views(references@), now, resolved_view), resolved_view));
                }
                Err(SpawnAnswer::InvalidInputRef)
            },
            Ok(historical) => {
                let groups: Vec<&[InputPart]> = vec![turn_parts, historical.as_slice()];
                let input_parts = merge_input_parts(groups.as_slice());
                proof {
                    assert(Seq::new(groups@.len(), |g: int| part_views(groups@[g]@)) =~= seq![part_views(turn_parts@), part_views(historical@)]);
                }
                let key = submission_key(self.session_id(), turn_id, call_id);
                let s = SpawnSubmission { objective: objective.to_owned(), submission_key: key, input_parts };
                proof {
                    assert(resolve_outcome(*old(assets), *assets, self.owner_spec(), self.session_spec(), string_views(references@), choose|now: i64| resolve_outcome(*old(assets), *assets, self.owner_spec(), self.session_spec(), string_views(references@), now, resolved_view), resolved_view));
                }
                Ok(s)
            },
        }
    }

    /// The last step of a delegation: a refused submission (`None`) answers
    /// as such and records nothing; an accepted one is recorded against the
    /// turn and answers as a duplicate when the Work manager reused an
    /// existing Work, and as accepted otherwise.
    pub fn finish_submission(&mut self, turn_id: &str, created: Option<(String, bool)>) -> (r: SpawnAnswer)
        requires
            old(self).wf(),
        ensures
            final(self).wf(),
            match created {
                None => r == SpawnAnswer::SubmissionFailed && *final(self) == *old(self),
                Some((work_id, reused)) => {
                    &&& has_key(final(self).turn_tasks_spec(), turn_id@)
                    &&& value_of(final(self).turn_tasks_spec(), turn_id@)@ == work_id@
                    &&& final(self).processed() == old(self).processed()
                    &&& final(self).deferred_spec() == old(self).deferred_spec()
                    &&& r == (if reused {
                        SpawnAnswer::Duplicate { work_id }
                    } else {
                        SpawnAnswer::Accepted { work_id }
                    })
                },
            },
    {
        match created {
            None => SpawnAnswer::SubmissionFailed,
            Some((work_id, reused)) => {
                self.remember_turn_task(turn_id, work_id.as_str());
                if reused {
                    SpawnAnswer::Duplicate { work_id }
                } else {
                    SpawnAnswer::Accepted { work_id }
                }
            },
        }
    }
}

} // verus!
