use via_voice::frontend::{FunctionOutputOptions, ResponseOutcome, SettlePhase};

#[test]
fn a_skipped_outcome_is_not_a_failure() {
    let outcome = ResponseOutcome::skipped();
    assert!(outcome.skipped);
    assert!(!outcome.failed);
    assert!(!outcome.completed);
    assert_eq!(outcome.phase, SettlePhase::Deduplicated);
}

#[test]
fn a_completed_outcome_carries_its_response_id() {
    let outcome = ResponseOutcome::completed("resp_1");
    assert!(outcome.completed);
    assert_eq!(outcome.response_id.as_deref(), Some("resp_1"));
    assert!(!outcome.context_injected);
}

#[test]
fn function_output_options_default_to_silent() {
    assert!(!FunctionOutputOptions::default().create_response);
    assert!(!FunctionOutputOptions::silent().create_response);
    assert!(FunctionOutputOptions::with_response().create_response);
    assert_eq!(FunctionOutputOptions::with_response().instructions("say it").instructions.as_deref(), Some("say it"));
}

#[test]
fn a_refused_outcome_is_a_failure_in_its_phase() {
    let outcome = ResponseOutcome::failed(SettlePhase::Inactivity);
    assert!(outcome.failed);
    assert!(!outcome.completed);
    assert_eq!(outcome.phase, SettlePhase::Inactivity);
}
