use via_voice::tools::respond::{plan_status_query, restore_after_failed_delivery_at, QueryStep};
use std::sync::atomic::{AtomicI64, Ordering};
use std::sync::Arc;

use via_voice::assets::InputAssetRegistry;
use via_voice::clock::Clock;
use via_voice::input::parts::InputPart;
use via_voice::mode::{ModePlan, SessionMode};
use via_voice::permission::{PermissionDecision, PermissionMode, SessionPermissionPolicy};
use via_voice::tools::handler::{
    spawn_refusal, AssumeAvailable, BackendState, NotificationStatus, SpawnRefusal, ToolCallHandler, WorkStatus,
    WorkSummary,
};
use via_voice::tools::respond::{cancel_answer, respond_permission_at, status_report, CancelAnswer, PermissionAnswer};
use via_voice::tools::spawn::{spawn_objective, spawn_start, SpawnAnswer, SpawnStart};

struct TestClock(Arc<AtomicI64>);

impl Clock for TestClock {
    fn now_ms(&self) -> i64 {
        self.0.load(Ordering::SeqCst)
    }
}

fn clock() -> TestClock {
    TestClock(Arc::new(AtomicI64::new(1_000)))
}

fn work(id: &str, authorization: Option<&str>, pending: bool) -> WorkSummary {
    WorkSummary {
        id: id.to_owned(),
        status: WorkStatus::Running,
        control: false,
        parent_work_id: None,
        authorization_id: authorization.map(str::to_owned),
        authorization_pending: pending,
    }
}


fn handler() -> ToolCallHandler {
    ToolCallHandler::new("alice", "main", ModePlan::new(SessionMode::Agent, true))
}

#[test]
fn a_pending_permission_refuses_a_delegation_before_anything_else() {
    let works = vec![work("w1", Some("perm_old"), false), work("w2", Some("perm_1"), true)];
    let down = BackendState { configured: false, ok: false, known: true };
    assert_eq!(
        spawn_start(&works, down, "look it up"),
        SpawnStart::Answer(SpawnAnswer::PermissionPending { work_id: "w2".to_owned(), authorization_id: "perm_1".to_owned() }),
    );
}

#[test]
fn the_backend_is_checked_in_order() {
    let none = BackendState { configured: false, ok: true, known: false };
    assert_eq!(spawn_start(&[], none, "x"), SpawnStart::Answer(SpawnAnswer::BackendNotConfigured));
    let down = BackendState { configured: true, ok: false, known: true };
    assert_eq!(spawn_start(&[], down, "x"), SpawnStart::Answer(SpawnAnswer::BackendDisconnected));
    let unknown = BackendState { configured: true, ok: false, known: false };
    assert_eq!(spawn_start(&[], unknown, "  look   it up "), SpawnStart::Objective("look it up".to_owned()));
}

#[test]
fn the_objective_falls_back_to_the_trimmed_request() {
    assert_eq!(spawn_objective("", "  check the weather "), "check the weather");
    assert_eq!(spawn_objective("from the model", "ignored"), "from the model");
}

#[test]
fn an_unprobed_backend_refuses_nothing_but_a_pending_permission() {
    assert_eq!(spawn_refusal(false, &AssumeAvailable), None);
    assert_eq!(spawn_refusal(true, &AssumeAvailable), Some(SpawnRefusal::PermissionPending));
}

#[test]
fn a_submission_carries_the_key_and_the_referenced_attachments() {
    let mut assets = InputAssetRegistry::with_clock(clock());
    let registered = assets.register_parts("alice", "main", "voice-1", &[InputPart::file("image/png", "data:image/png;base64,AAAA")]);
    let handler = handler();
    let submission = handler
        .plan_submission(&mut assets, "describe it", "voice-2", "call_1", &["input_1".to_owned()], &[InputPart::text("hi")])
        .expect("valid");
    assert_eq!(submission.objective, "describe it");
    assert_eq!(submission.submission_key, "delegation:main:voice-2");
    assert_eq!(submission.input_parts, vec![registered[0].clone()]);
}

#[test]
fn a_submission_is_refused_for_each_reason() {
    let mut assets = InputAssetRegistry::with_clock(clock());
    let mut handler = handler();
    assert_eq!(
        handler.plan_submission(&mut assets, "", "voice-1", "call_1", &[], &[]),
        Err(SpawnAnswer::MissingObjective),
    );
    assert_eq!(
        handler.plan_submission(&mut assets, "x", "voice-1", "call_1", &["input_9".to_owned()], &[]),
        Err(SpawnAnswer::InvalidInputRef),
    );
    assert_eq!(handler.finish_submission("voice-1", Some(("work_1".to_owned(), false))), SpawnAnswer::Accepted {
        work_id: "work_1".to_owned(),
    });
    assert_eq!(
        handler.plan_submission(&mut assets, "x", "voice-1", "call_2", &[], &[]),
        Err(SpawnAnswer::Duplicate { work_id: "work_1".to_owned() }),
    );
    assert_eq!(handler.finish_submission("voice-3", Some(("work_2".to_owned(), true))), SpawnAnswer::Duplicate {
        work_id: "work_2".to_owned(),
    });
    assert_eq!(handler.finish_submission("voice-4", None), SpawnAnswer::SubmissionFailed);
    assert_eq!(handler.turn_task("voice-4"), None);
}

#[test]
fn a_permission_response_needs_words_a_pending_permission_and_a_responder() {
    let mut policy = SessionPermissionPolicy::with_clock(clock());
    let works = vec![work("w1", Some("perm_1"), true)];
    let invalid = respond_permission_at(&mut policy, "alice", "main", "perm_1", "always", "   ", &works, true, 1_000);
    assert_eq!(invalid.answer, PermissionAnswer::Invalid);
    let stale = respond_permission_at(&mut policy, "alice", "main", "perm_2", "always", "yes", &works, true, 1_000);
    assert_eq!(stale.answer, PermissionAnswer::NotPending);
    let nobody = respond_permission_at(&mut policy, "alice", "main", "perm_1", "always", "yes", &works, false, 1_000);
    assert_eq!(nobody.answer, PermissionAnswer::Unavailable);
    assert_eq!(policy.mode_at("alice", "main", 1_000), PermissionMode::Ask);
    let taken = respond_permission_at(&mut policy, "alice", "main", " perm_1 ", "always", "yes", &works, true, 1_000);
    assert_eq!(
        taken.answer,
        PermissionAnswer::Submitted { authorization_id: "perm_1".to_owned(), decision: PermissionDecision::Always },
    );
    assert_eq!(taken.previous, Some(PermissionMode::Ask));
    assert_eq!(policy.mode_at("alice", "main", 1_000), PermissionMode::AutoAllow);
}

#[test]
fn a_cancellation_is_answered_from_what_the_manager_returned() {
    assert_eq!(cancel_answer(None, None), CancelAnswer::NotFound);
    assert_eq!(cancel_answer(Some("w1".to_owned()), None), CancelAnswer::NotActive { work_id: "w1".to_owned() });
    assert_eq!(
        cancel_answer(Some("w1".to_owned()), Some(("w1".to_owned(), WorkStatus::Cancelled, None))),
        CancelAnswer::Cancelled { work_id: "w1".to_owned() },
    );
    assert_eq!(
        cancel_answer(Some("w1".to_owned()), Some(("w1".to_owned(), WorkStatus::Running, Some("busy".to_owned())))),
        CancelAnswer::Failed { error: Some("busy".to_owned()) },
    );
}

#[test]
fn a_status_report_clips_and_reports_by_status() {
    let long = "x".repeat(700);
    let report = status_report(WorkStatus::Completed, NotificationStatus::Pending, &long, Some(&long), Some("e"), Some(None));
    assert_eq!(report.objective.len(), 300);
    assert_eq!(report.result.as_deref().map(str::len), Some(500));
    assert_eq!(report.error, None);
    assert_eq!(report.last_detail.as_deref(), Some(""));
    assert!(report.consumes_notification);

    let failed = status_report(WorkStatus::Failed, NotificationStatus::Other, "o", None, Some("boom"), None);
    assert_eq!(failed.result, None);
    assert_eq!(failed.error.as_deref(), Some("boom"));
    assert_eq!(failed.last_detail, None);
    assert!(!failed.consumes_notification);
}

#[test]
fn a_status_question_answers_with_the_running_query_or_plans_one() {
    let mut control = work("q1", None, false);
    control.control = true;
    control.parent_work_id = Some("w1".to_owned());
    let long = "o".repeat(250);
    assert_eq!(
        plan_status_query(&[work("w1", None, false), control.clone()], "w1", &long, "", "", "D", "F"),
        QueryStep::AlreadyQuerying { query_work_id: "q1".to_owned() },
    );
    match plan_status_query(&[control.clone()], "w2", &long, "  how far? ", "ignored", "D", "F") {
        QueryStep::Create { parent_work_id, priority, objective, prompt_question, question } => {
            assert_eq!(parent_work_id, "w2");
            assert_eq!(priority, 100);
            assert_eq!(objective.len(), 200);
            assert_eq!(prompt_question, "how far?");
            assert_eq!(question, "how far?");
        },
        other => panic!("{other:?}"),
    }
    match plan_status_query(&[], "w2", "obj", "", "  ", "D", "F") {
        QueryStep::Create { prompt_question, question, objective, .. } => {
            assert_eq!(objective, "obj");
            assert_eq!(prompt_question, "D");
            assert_eq!(question, "F");
        },
        other => panic!("{other:?}"),
    }
}

#[test]
fn a_failed_delivery_restores_the_replaced_mode() {
    let mut policy = SessionPermissionPolicy::with_clock(clock());
    let works = vec![work("w1", Some("perm_1"), true)];
    let taken = respond_permission_at(&mut policy, "alice", "main", "perm_1", "always", "yes", &works, true, 1_000);
    assert_eq!(policy.mode_at("alice", "main", 1_000), PermissionMode::AutoAllow);
    restore_after_failed_delivery_at(&mut policy, "alice", "main", &taken, 1_001);
    assert_eq!(policy.mode_at("alice", "main", 1_001), PermissionMode::Ask);
    let invalid = respond_permission_at(&mut policy, "alice", "main", "", "always", "yes", &works, true, 1_002);
    restore_after_failed_delivery_at(&mut policy, "alice", "main", &invalid, 1_002);
    assert_eq!(policy.mode_at("alice", "main", 1_002), PermissionMode::Ask);
}
