use via_voice::sleep::{
    can_sleep, wake_word_applicable, CanSleepInputs, SleepController, SleepControllerConfig, TimerOutcome,
    WakeWordPrepareInputs, DEFAULT_RETRY_MS, MIN_RETRY_MS,
};

type Mutation = (&'static str, fn(&mut CanSleepInputs));

#[test]
fn the_can_sleep_predicate_needs_every_condition() {
    let idle = CanSleepInputs {
        input_enabled: true,
        wake_word_enabled: false,
        is_active_client: true,
        frontend_ready: true,
        user_speaking: false,
        window_blocked: false,
        connecting: false,
        waking: false,
    };
    assert!(can_sleep(&idle));

    let mutations: [Mutation; 6] = [
        ("no way back in", |inputs| {
            inputs.input_enabled = false;
            inputs.wake_word_enabled = false;
        }),
        ("not the active client", |inputs| inputs.is_active_client = false),
        ("nothing to close", |inputs| inputs.frontend_ready = false),
        ("user speaking", |inputs| inputs.user_speaking = true),
        ("gate blocked", |inputs| inputs.window_blocked = true),
        ("handshake in flight", |inputs| inputs.connecting = true),
    ];
    for (why, mutate) in mutations {
        let mut inputs = idle;
        mutate(&mut inputs);
        assert!(!can_sleep(&inputs), "{why} still permitted sleep");
    }

    let mut waking = idle;
    waking.waking = true;
    assert!(!can_sleep(&waking));
}

#[test]
fn wake_word_alone_is_a_way_back_in() {
    let inputs = CanSleepInputs {
        input_enabled: false,
        wake_word_enabled: true,
        is_active_client: true,
        frontend_ready: true,
        ..CanSleepInputs::default()
    };
    assert!(can_sleep(&inputs));
}

#[test]
fn the_retry_interval_is_floored() {
    let config = SleepControllerConfig::new(1_000).retry_ms(0);
    assert_eq!(config.retry_ms, MIN_RETRY_MS);
    assert_eq!(SleepControllerConfig::new(1_000).retry_ms, DEFAULT_RETRY_MS);
}

#[test]
fn activity_re_arms_the_idle_timer_and_a_superseded_timer_is_stale() {
    let mut controller = SleepController::new(SleepControllerConfig::new(5_000));
    assert!(controller.record_activity().is_none(), "a disabled controller arms nothing");
    let (enabled, first) = controller.enable();
    assert!(enabled);
    let first = first.expect("enabling arms the idle timer");
    assert_eq!(first.delay_ms, 5_000);
    let second = controller.record_activity().expect("activity re-arms");
    assert_ne!(first.generation, second.generation);
    assert_eq!(controller.timer_fired(first.generation, true), TimerOutcome::Stale, "the first timer was superseded");
    assert_eq!(controller.timer_fired(second.generation, true), TimerOutcome::Sleep);
    assert!(controller.is_sleeping());
}

#[test]
fn a_refused_sleep_is_retried_after_the_retry_interval() {
    let mut controller = SleepController::new(SleepControllerConfig::new(5_000).retry_ms(250));
    let (_, timer) = controller.enable();
    let timer = timer.expect("armed");
    match controller.timer_fired(timer.generation, false) {
        TimerOutcome::Retry(retry) => assert_eq!(retry.delay_ms, 250),
        other => panic!("expected a retry, got {other:?}"),
    }
    assert!(!controller.is_sleeping());
}

#[test]
fn a_failed_transition_wakes_and_retries() {
    let mut controller = SleepController::new(SleepControllerConfig::new(5_000));
    let (_, timer) = controller.enable();
    let timer = timer.expect("armed");
    assert_eq!(controller.timer_fired(timer.generation, true), TimerOutcome::Sleep);
    let retry = controller.transition_finished(false).expect("a failed transition retries");
    assert_eq!(retry.delay_ms, DEFAULT_RETRY_MS);
    assert!(!controller.is_sleeping());
}

#[test]
fn waking_reports_whether_it_was_asleep() {
    let mut controller = SleepController::new(SleepControllerConfig::new(5_000));
    controller.enable();
    assert!(controller.hold_sleeping());
    let (was_sleeping, _) = controller.wake();
    assert!(was_sleeping);
    let (again, _) = controller.wake();
    assert!(!again);
}

#[test]
fn a_closed_controller_does_nothing_further() {
    let mut controller = SleepController::new(SleepControllerConfig::new(5_000));
    controller.close();
    assert_eq!(controller.enable(), (false, None));
    assert!(controller.record_activity().is_none());
}

#[test]
fn a_zero_timeout_never_arms_the_idle_timer() {
    let mut controller = SleepController::new(SleepControllerConfig::new(0));
    let (enabled, timer) = controller.enable();
    assert!(enabled);
    assert!(timer.is_none());
    assert!(controller.record_activity().is_none());
}

#[test]
fn wake_word_is_applicable_only_for_an_enabled_voice_client_with_a_live_microphone() {
    assert!(wake_word_applicable(true, WakeWordPrepareInputs::default()));
    assert!(!wake_word_applicable(false, WakeWordPrepareInputs::default()));
    assert!(!wake_word_applicable(true, WakeWordPrepareInputs { non_voice_client: true, input_suspended: false }));
    assert!(!wake_word_applicable(true, WakeWordPrepareInputs { non_voice_client: false, input_suspended: true }));
}

#[test]
fn only_a_live_timer_is_worth_asking_about() {
    let mut controller = SleepController::new(SleepControllerConfig::new(5_000));
    let (_, timer) = controller.enable();
    let timer = timer.expect("armed");
    assert!(controller.timer_is_live(timer.generation));
    assert!(!controller.timer_is_live(timer.generation + 1));
    controller.close();
    assert!(!controller.timer_is_live(timer.generation));
    assert!(!controller.is_sleeping() && !controller.is_enabled());
}
