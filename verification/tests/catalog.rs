use via_voice::mode::{Degradation, ModePlan, SessionMode};
use via_voice::tools::catalog::{
    declared_tool_names, is_tool_name, ALL_TOOL_NAMES, ALWAYS_DECLARED, CANCEL_AGENT_TASK, ENTER_SLEEP,
    GET_AGENT_TASK_STATUS, GET_CURRENT_TIME, MEMORY, NOTES, RESPOND_AGENT_PERMISSION, SCHEDULE_REMINDER, SPAWN_THINKING,
};

#[test]
fn the_eight_always_declared_tools_are_in_upstream_order() {
    let plan = ModePlan::new(SessionMode::Agent, true);
    assert_eq!(declared_tool_names(&Vec::new(), plan), ALWAYS_DECLARED.to_vec());
}

#[test]
fn enter_sleep_is_declared_only_for_a_client_that_can_sleep() {
    let plan = ModePlan::new(SessionMode::Agent, true);
    let without = declared_tool_names(&Vec::new(), plan);
    assert_eq!(without.len(), 8);
    assert!(!without.contains(&ENTER_SLEEP));

    let with = declared_tool_names(&vec!["sleeping".to_owned()], plan);
    assert_eq!(with.len(), 9);
    assert_eq!(with[8], ENTER_SLEEP, "appended last");

    // An unrelated declared state does not unlock it.
    let other = declared_tool_names(&vec!["hidden".to_owned()], plan);
    assert_eq!(other.len(), 8);
}

#[test]
fn dictation_declares_no_tools_at_all() {
    let plan = ModePlan::new(SessionMode::Dictation, true);
    assert!(declared_tool_names(&vec!["sleeping".to_owned()], plan).is_empty());
}

#[test]
fn direct_declares_the_control_tools_but_never_spawn_thinking() {
    let plan = ModePlan::new(SessionMode::Direct, true);
    let names = declared_tool_names(&Vec::new(), plan);
    assert!(!names.contains(&SPAWN_THINKING));
    assert!(names.contains(&GET_AGENT_TASK_STATUS));
    assert!(names.contains(&MEMORY));
    assert_eq!(names.len(), 7);
}

#[test]
fn the_tool_name_table_covers_every_declaration() {
    assert_eq!(ALL_TOOL_NAMES.len(), 9);
    for name in ALWAYS_DECLARED {
        assert!(ALL_TOOL_NAMES.contains(&name), "{name}");
    }
    assert!(ALL_TOOL_NAMES.contains(&ENTER_SLEEP));
}

#[test]
fn no_tool_name_carries_the_old_brand() {
    for name in ALL_TOOL_NAMES {
        assert!(!name.contains("qwen"), "{name}");
    }
}

#[test]
fn only_catalogued_names_are_tool_names() {
    for name in ALL_TOOL_NAMES {
        assert!(is_tool_name(name), "{name}");
    }
    assert!(!is_tool_name("rm_rf"));
    assert!(!is_tool_name(""));
}

#[test]
fn agent_degrades_to_direct_without_a_harness_and_says_so() {
    let plan = ModePlan::new(SessionMode::Agent, false);
    assert_eq!(plan.requested(), SessionMode::Agent);
    assert_eq!(plan.effective(), SessionMode::Direct);
    assert_eq!(plan.degradation(), Some(Degradation::NoHarness));
    assert!(!plan.delegates());
    assert!(!plan.declares_tool(SPAWN_THINKING));
    assert!(plan.declares_tool(MEMORY));
}

#[test]
fn agent_with_a_harness_is_the_whole_stack() {
    let plan = ModePlan::new(SessionMode::Agent, true);
    assert_eq!(plan.effective(), SessionMode::Agent);
    assert_eq!(plan.degradation(), None);
    assert!(plan.delegates());
    assert!(plan.announces());
    assert!(plan.declares_tool(SPAWN_THINKING));
}

#[test]
fn dictation_mounts_no_model_no_tools_and_no_speech() {
    for harness in [false, true] {
        let plan = ModePlan::new(SessionMode::Dictation, harness);
        assert_eq!(plan.effective(), SessionMode::Dictation);
        assert_eq!(plan.degradation(), None, "dictation never degrades");
        assert!(!plan.runs_model_turn());
        assert!(!plan.speaks());
        assert!(!plan.delegates());
        assert!(!plan.announces());
        for tool in ALL_TOOL_NAMES {
            assert!(!plan.declares_tool(tool), "{tool}");
        }
    }
}

#[test]
fn direct_runs_the_model_with_control_tools_and_never_delegates() {
    for harness in [false, true] {
        let plan = ModePlan::new(SessionMode::Direct, harness);
        assert_eq!(plan.effective(), SessionMode::Direct);
        assert_eq!(plan.degradation(), None);
        assert!(plan.runs_model_turn());
        assert!(plan.speaks());
        assert!(!plan.delegates());
        assert!(!plan.declares_tool(SPAWN_THINKING));
        for tool in
            [SCHEDULE_REMINDER, CANCEL_AGENT_TASK, GET_AGENT_TASK_STATUS, GET_CURRENT_TIME, MEMORY, NOTES, RESPOND_AGENT_PERMISSION, ENTER_SLEEP]
        {
            assert!(plan.declares_tool(tool), "{tool}");
        }
    }
}

#[test]
fn interface_runs_as_itself_now_that_the_context_engine_exists() {
    for harness in [false, true] {
        let plan = ModePlan::new(SessionMode::Interface, harness);
        assert_eq!(plan.requested(), SessionMode::Interface);
        assert_eq!(plan.effective(), SessionMode::Interface);
        assert_eq!(plan.degradation(), None, "harness_configured={harness}");
        assert!(plan.context_engine());
        assert!(plan.runs_model_turn());
        assert!(plan.speaks());
        assert!(!plan.delegates());
        assert!(!plan.announces());
        assert!(!plan.declares_tool(SPAWN_THINKING));
        assert!(plan.declares_tool(MEMORY));
    }
}

#[test]
fn interface_without_a_context_engine_degrades_to_direct_and_says_why() {
    let plan = ModePlan::with_context_engine(SessionMode::Interface, true, false);
    assert_eq!(plan.requested(), SessionMode::Interface);
    assert_eq!(plan.effective(), SessionMode::Direct);
    assert!(!plan.context_engine());
    assert_eq!(plan.degradation(), Some(Degradation::ContextEngineUnavailable));
    assert_eq!(plan.degradation().map(Degradation::as_str), Some("context_engine_unavailable"));
    assert!(plan.runs_model_turn());
    assert!(!plan.delegates());
}

#[test]
fn a_missing_context_engine_constrains_no_other_mode() {
    for mode in [SessionMode::Dictation, SessionMode::Direct, SessionMode::Agent] {
        let with = ModePlan::with_context_engine(mode, true, true);
        let without = ModePlan::with_context_engine(mode, true, false);
        assert_eq!(with.effective(), without.effective(), "{mode:?}");
        assert_eq!(with.degradation(), without.degradation(), "{mode:?}");
    }
}

#[test]
fn new_is_with_context_engine_mounted() {
    for mode in SessionMode::ALL {
        assert_eq!(ModePlan::new(mode, true), ModePlan::with_context_engine(mode, true, true));
        assert_eq!(ModePlan::new(mode, false), ModePlan::with_context_engine(mode, false, true));
    }
}

#[test]
fn the_default_plan_is_the_whole_stack() {
    assert_eq!(ModePlan::default().effective(), SessionMode::Agent);
    assert_eq!(ModePlan::default().degradation(), None);
}

#[test]
fn an_unknown_tool_is_never_declared() {
    let plan = ModePlan::new(SessionMode::Agent, true);
    assert!(!plan.declares_tool("rm_rf"));
    assert!(!plan.declares_tool(""));
}

#[test]
fn the_degradation_codes_are_stable() {
    assert_eq!(Degradation::NoHarness.as_str(), "no_harness");
    assert_eq!(Degradation::ContextEngineUnavailable.as_str(), "context_engine_unavailable");
}
