use via_voice::guards::{
    default_guards, evaluate_default_response_guards, evaluate_response_guards, is_response_guard_turn_current,
    promise_verdict, promises_action, ActionPromiseGuard, GuardObservation, GuardTurnState, ResponseGuard,
    ACTION_PROMISE_GUARD_ID, ACTION_PROMISE_PATTERN,
};
use via_voice::locale::{Locale, LocalizedText};
use via_voice::response::ResponseOrigin;
use via_voice::text::utf16_len;

type Mutation = (&'static str, fn(&mut GuardTurnState));

/// The catalog's correction, in three locales.
fn correction() -> LocalizedText {
    LocalizedText {
        en: "You said you would act but called no tool. Call the tool now, or say you cannot.".to_owned(),
        zh: "你刚才说要去做，但没有调用工具。现在调用工具，或者说明无法完成。".to_owned(),
        ko: "도구를 호출하지 않았습니다. 지금 도구를 호출하세요.".to_owned(),
    }
}

fn action_guard() -> ActionPromiseGuard {
    ActionPromiseGuard::new(correction())
}

fn promise(transcript: &str) -> GuardObservation {
    GuardObservation::new(transcript)
}

#[test]
fn a_bare_promise_matches() {
    for transcript in [
        "我来查一下",
        "好的，我马上帮你处理",
        "稍等，我这就运行",
        "让我来看一下",
        "马上去检查",
        "现在就来修改",
        "收到，我立刻替你验证一下配置",
    ] {
        assert!(promises_action(transcript), "{transcript} should match");
    }
}

#[test]
fn a_question_is_not_a_promise() {
    for transcript in ["我来查一下好吗", "要不要我来查一下", "需要我去处理吗", "我来查一下？", "是否需要我来运行", "要我现在去查一下"] {
        assert!(!promises_action(transcript), "{transcript} should not match");
    }
}

#[test]
fn a_delivered_answer_is_not_a_promise() {
    for transcript in ["我来查一下：结果是三个", "我马上处理，已经完成了", "我去查找，找到两处", "我来看一下，原因是端口冲突"] {
        assert!(!promises_action(transcript), "{transcript} should not match");
    }
}

#[test]
fn a_delivery_that_would_otherwise_match_the_promise_pattern_is_still_refused() {
    // These match the promise pattern in full and are rejected only because
    // they say an answer was delivered.
    let pattern = regex::Regex::new(ACTION_PROMISE_PATTERN).ok();
    for transcript in ["我来查一下已经完成", "我去查找找到两处", "我马上检查发现三个问题", "我来看一下答案"] {
        assert!(
            pattern.as_ref().is_some_and(|pattern| pattern.is_match(transcript)),
            "{transcript} must reach the delivered-content check",
        );
        assert!(!promises_action(transcript), "{transcript} delivers an answer and is not a bare promise");
    }
}

#[test]
fn the_length_bound_is_a_utf16_length_of_forty() {
    let head = "好的，我现在就帮你查一下";
    assert_eq!(utf16_len(head), 12);
    let exactly_forty = format!("{head}{}", "阿".repeat(28));
    assert_eq!(utf16_len(&exactly_forty), 40);
    assert!(promises_action(&exactly_forty));
    let forty_one = format!("{exactly_forty}。");
    assert_eq!(utf16_len(&forty_one), 41);
    assert!(!promises_action(&forty_one), "the bound rejects it even though the pattern would match");
}

#[test]
fn an_empty_or_whitespace_transcript_never_matches() {
    assert!(!promises_action(""));
    assert!(!promises_action("   \n "));
}

#[test]
fn an_unevaluable_pattern_never_corrects() {
    assert!(promise_verdict(Some(true), Some(false), Some(false)));
    assert!(!promise_verdict(None, Some(false), Some(false)));
    assert!(!promise_verdict(Some(true), None, Some(false)));
    assert!(!promise_verdict(Some(true), Some(false), None));
    assert!(!promise_verdict(Some(true), Some(true), Some(false)));
    assert!(!promise_verdict(Some(true), Some(false), Some(true)));
}

#[test]
fn the_guard_declines_every_non_model_origin() {
    let guard = action_guard();
    for origin in [ResponseOrigin::Announcement, ResponseOrigin::Permission, ResponseOrigin::Agent, ResponseOrigin::Progress] {
        let mut observation = promise("我来查一下");
        observation.origin = origin;
        assert!(evaluate_default_response_guards(&observation, Locale::Zh, &guard).is_none(), "{origin:?} earned a correction");
    }
}

#[test]
fn a_response_that_did_call_a_tool_earns_nothing() {
    let mut observation = promise("我来查一下");
    observation.has_function_call = true;
    assert!(evaluate_default_response_guards(&observation, Locale::Zh, &action_guard()).is_none());
}

#[test]
fn a_failed_or_suppressed_response_earns_nothing() {
    let mut failed = promise("我来查一下");
    failed.failed = true;
    assert!(evaluate_default_response_guards(&failed, Locale::Zh, &action_guard()).is_none());
    let mut suppressed = promise("我来查一下");
    suppressed.suppressed = true;
    assert!(evaluate_default_response_guards(&suppressed, Locale::Zh, &action_guard()).is_none());
}

#[test]
fn a_match_reports_the_guard_id_and_the_localized_instructions() {
    let guard = action_guard();
    let decision =
        evaluate_default_response_guards(&promise("我来查一下"), Locale::Zh, &guard).expect("a bare promise earns a correction");
    assert_eq!(decision.guard_id, ACTION_PROMISE_GUARD_ID);
    assert_eq!(decision.instructions, correction().zh);
    // The correction is localized, not pinned to `zh`.
    let english =
        evaluate_default_response_guards(&promise("我来查一下"), Locale::En, &guard).expect("locale does not change what matches");
    assert_eq!(english.instructions, correction().en);
    assert_ne!(english.instructions, decision.instructions);
}

#[test]
fn a_guard_with_empty_instructions_is_skipped_rather_than_returned() {
    struct Silent;
    impl ResponseGuard for Silent {
        fn id(&self) -> &'static str {
            "silent"
        }
        fn instructions(&self, _locale: Locale) -> String {
            "   ".to_owned()
        }
        fn matches(&self, _observation: &GuardObservation) -> bool {
            true
        }
    }
    let silent = Silent;
    let action = action_guard();
    let guards: [&dyn ResponseGuard; 2] = [&silent, &action];
    let decision = evaluate_response_guards(&promise("我来查一下"), Locale::Zh, &guards).expect("the second guard still runs");
    assert_eq!(decision.guard_id, ACTION_PROMISE_GUARD_ID);
}

#[test]
fn only_the_first_matching_guard_wins() {
    struct Always;
    impl ResponseGuard for Always {
        fn id(&self) -> &'static str {
            "always"
        }
        fn instructions(&self, _locale: Locale) -> String {
            "reconsider".to_owned()
        }
        fn matches(&self, _observation: &GuardObservation) -> bool {
            true
        }
    }
    let always = Always;
    let action = action_guard();
    let guards: [&dyn ResponseGuard; 2] = [&always, &action];
    let decision = evaluate_response_guards(&promise("我来查一下"), Locale::Zh, &guards).expect("the first guard matches");
    assert_eq!(decision.guard_id, "always");
}

#[test]
fn the_turn_currency_check_needs_all_six_conditions() {
    let current = GuardTurnState {
        same_frontend: true,
        output_enabled: true,
        user_speaking: false,
        response_turn_id: "voice-1".to_owned(),
        response_turn_generation: 3,
        committed_turn_id: "voice-1".to_owned(),
        committed_turn_generation: 3,
    };
    assert!(is_response_guard_turn_current(&current));

    let mutations: [Mutation; 6] = [
        ("frontend replaced", |state| state.same_frontend = false),
        ("output disabled", |state| state.output_enabled = false),
        ("user speaking", |state| state.user_speaking = true),
        ("no turn id", |state| state.response_turn_id.clear()),
        ("turn moved on", |state| {
            state.committed_turn_id = "voice-2".to_owned();
        }),
        ("generation bumped", |state| state.committed_turn_generation = 4),
    ];
    for (why, mutate) in mutations {
        let mut state = current.clone();
        mutate(&mut state);
        assert!(!is_response_guard_turn_current(&state), "{why} still passed");
    }
}

#[test]
fn the_default_registry_holds_exactly_the_action_promise_guard() {
    let guard = action_guard();
    assert_eq!(default_guards(&guard).len(), 1);
    assert_eq!(default_guards(&guard)[0].id(), ACTION_PROMISE_GUARD_ID);
}
