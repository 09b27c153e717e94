use via_voice::mode::{Degradation, ModePlan, SessionMode};
use via_voice::status::{
    aggregate, degradation_from_reason, realtime_connection_status, ClientType, RealtimeState, RealtimeStateInputs,
    RealtimeStatus, VoiceClientStatus,
};

fn inputs() -> RealtimeStateInputs {
    RealtimeStateInputs { provider: "dashscope".to_owned(), ..RealtimeStateInputs::default() }
}

#[test]
fn a_blocked_provider_reports_unavailable_even_while_asleep() {
    let status = realtime_connection_status(&RealtimeStateInputs {
        blocked_error: "bad credentials".to_owned(),
        sleeping: true,
        waking: true,
        ready: true,
        connecting: true,
        ..inputs()
    });
    assert_eq!(status.state, RealtimeState::Unavailable);
    assert_eq!(status.error.as_deref(), Some("bad credentials"));
}

#[test]
fn the_state_precedence_is_the_catalogued_one() {
    let cases: [(RealtimeStateInputs, RealtimeState); 5] = [
        (RealtimeStateInputs { waking: true, sleeping: true, ready: true, ..inputs() }, RealtimeState::Waking),
        (RealtimeStateInputs { sleeping: true, ready: true, ..inputs() }, RealtimeState::Sleeping),
        (RealtimeStateInputs { ready: true, connecting: true, ..inputs() }, RealtimeState::Connected),
        (RealtimeStateInputs { connecting: true, ..inputs() }, RealtimeState::Connecting),
        (inputs(), RealtimeState::Disconnected),
    ];
    for (input, expected) in cases {
        assert_eq!(realtime_connection_status(&input).state, expected);
    }
}

#[test]
fn a_healthy_status_carries_no_error_field() {
    let status = realtime_connection_status(&inputs());
    assert_eq!(status.error, None);
    assert_eq!(status.provider, "dashscope");
}

#[test]
fn the_aggregate_counts_by_type_and_by_provider() {
    let clients = vec![
        VoiceClientStatus {
            client_type: ClientType::Desktop,
            realtime: RealtimeStatus { provider: "dashscope".to_owned(), state: RealtimeState::Connected, error: None },
            mode: ModePlan::new(SessionMode::Agent, true),
        },
        VoiceClientStatus {
            client_type: ClientType::Cli,
            realtime: RealtimeStatus { provider: "mock".to_owned(), state: RealtimeState::Sleeping, error: None },
            mode: ModePlan::new(SessionMode::Agent, true),
        },
        VoiceClientStatus {
            client_type: ClientType::Cli,
            realtime: RealtimeStatus {
                provider: "mock".to_owned(),
                state: RealtimeState::Unavailable,
                error: Some("no key".to_owned()),
            },
            mode: ModePlan::new(SessionMode::Agent, true),
        },
    ];
    let health = aggregate(&clients, 1);
    assert_eq!(health.connected, 3);
    assert_eq!(health.active_owners, 1);
    assert_eq!(health.by_type.desktop, 1);
    assert_eq!(health.by_type.cli, 2);
    assert_eq!(health.by_type.web, 0);
    assert_eq!(health.realtime.totals.connected, 1);
    assert_eq!(health.realtime.totals.sleeping, 1);
    assert_eq!(health.realtime.totals.unavailable, 1);
    let mock = health.realtime.by_provider.get("mock").expect("present");
    assert_eq!(mock.sleeping, 1);
    assert_eq!(mock.unavailable, 1);
    assert_eq!(mock.error.as_deref(), Some("no key"));
    assert!(health.degraded_modes.is_empty());
}

#[test]
fn a_degraded_mode_is_reported_never_silent() {
    let clients = vec![
        VoiceClientStatus {
            client_type: ClientType::Web,
            realtime: RealtimeStatus::default(),
            mode: ModePlan::new(SessionMode::Agent, false),
        },
        VoiceClientStatus {
            client_type: ClientType::Web,
            realtime: RealtimeStatus::default(),
            mode: ModePlan::with_context_engine(SessionMode::Interface, true, false),
        },
        VoiceClientStatus {
            client_type: ClientType::Web,
            realtime: RealtimeStatus::default(),
            mode: ModePlan::new(SessionMode::Agent, false),
        },
    ];
    let health = aggregate(&clients, 0);
    assert_eq!(health.degraded_modes.len(), 2);
    let agent = health.degraded_modes.iter().find(|row| row.requested == "agent").expect("the agent row");
    assert_eq!(agent.effective, "direct");
    assert_eq!(agent.reason, "no_harness");
    assert_eq!(agent.sessions, 2);
    let interface = health.degraded_modes.iter().find(|row| row.requested == "interface").expect("the interface row");
    assert_eq!(interface.reason, "context_engine_unavailable");
    assert_eq!(interface.sessions, 1);
    assert_eq!(degradation_from_reason(&interface.reason), Some(Degradation::ContextEngineUnavailable));
}

#[test]
fn an_empty_gateway_reports_zeroes_rather_than_nothing() {
    let health = aggregate(&[], 0);
    assert_eq!(health.connected, 0);
    assert_eq!(health.by_type.desktop, 0);
    assert_eq!(health.by_type.cli, 0);
    assert_eq!(health.by_type.web, 0);
    assert_eq!(health.realtime.totals.connected, 0);
    assert_eq!(health.realtime.by_provider.len(), 0);
    assert!(health.degraded_modes.is_empty());
}

#[test]
fn the_six_states_have_distinct_wire_names() {
    let names: Vec<&str> = RealtimeState::ALL.iter().map(|state| state.as_str()).collect();
    for (i, a) in names.iter().enumerate() {
        for b in &names[i + 1..] {
            assert_ne!(a, b);
        }
    }
    assert_eq!(names.len(), 6);
}

#[test]
fn an_unknown_reason_is_no_degradation() {
    assert_eq!(degradation_from_reason("no_harness"), Some(Degradation::NoHarness));
    assert_eq!(degradation_from_reason("whatever"), None);
}

#[test]
fn the_totals_carry_the_blocking_error_of_any_session() {
    let clients = vec![
        VoiceClientStatus {
            client_type: ClientType::Web,
            realtime: RealtimeStatus { provider: "a".to_owned(), state: RealtimeState::Unavailable, error: Some("first".to_owned()) },
            mode: ModePlan::new(SessionMode::Agent, true),
        },
        VoiceClientStatus {
            client_type: ClientType::Web,
            realtime: RealtimeStatus { provider: "b".to_owned(), state: RealtimeState::Connected, error: None },
            mode: ModePlan::new(SessionMode::Agent, true),
        },
    ];
    let health = aggregate(&clients, 0);
    assert_eq!(health.realtime.totals.error.as_deref(), Some("first"));
    assert_eq!(health.realtime.by_provider.get("a").and_then(|c| c.error.clone()).as_deref(), Some("first"));
    assert_eq!(health.realtime.by_provider.get("b").and_then(|c| c.error.clone()), None);
    assert_eq!(aggregate(&clients[1..], 0).realtime.totals.error, None);
}
