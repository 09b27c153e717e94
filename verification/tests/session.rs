use via_voice::session::{
    new_claimant_id, new_text_turn_id, upgrade_decision, TurnTracker, UpgradeDecision, MAX_PENDING_AUDIO_CHUNKS,
    PERMISSION_RESPONSE_GRACE_MS, REALTIME_ROUTE, REALTIME_STABLE_CONNECTION_MS, RESPONSE_CONTEXT_CLEANUP_MS,
    RESPONSE_START_WATCHDOG_MS, WAKE_CONNECT_MAX_ATTEMPTS, WAKE_CONNECT_RETRY_BACKOFF_MS,
};
use via_voice::turn::TurnRef;

#[test]
fn an_unknown_route_is_destroyed_without_a_status_line() {
    assert_eq!(upgrade_decision(false, true, true), UpgradeDecision::Destroy);
    // And the route is checked first, so a bad origin on a bad route still
    // leaks nothing.
    assert_eq!(upgrade_decision(false, false, false), UpgradeDecision::Destroy);
}

#[test]
fn the_two_refusals_carry_their_catalogued_bodies() {
    assert_eq!(
        upgrade_decision(true, false, true),
        UpgradeDecision::Reject { status: "403 Forbidden", message: "origin not allowed" },
    );
    assert_eq!(
        upgrade_decision(true, true, false),
        UpgradeDecision::Reject { status: "401 Unauthorized", message: "identity required" },
    );
    assert_eq!(upgrade_decision(true, true, true), UpgradeDecision::Accept);
}

#[test]
fn a_voice_turn_id_carries_the_instant_and_the_generation() {
    let mut tracker = TurnTracker::new();
    let first = tracker.begin_voice_turn(1_700_000_000_000);
    assert_eq!(first.turn_id, "voice-1700000000000-1");
    assert_eq!(first.turn_generation, 1);
    // Two utterances in the same millisecond still differ.
    let second = tracker.begin_voice_turn(1_700_000_000_000);
    assert_eq!(second.turn_id, "voice-1700000000000-2");
    assert_ne!(first.turn_id, second.turn_id);
}

#[test]
fn a_typed_turn_id_is_a_dashless_uuid() {
    let id = new_text_turn_id();
    assert!(id.starts_with("text_"));
    assert_eq!(id.len(), "text_".len() + 32);
    assert!(!id.contains('-'));
    assert_ne!(id, new_text_turn_id());
}

#[test]
fn a_claimant_id_is_unique_per_connection() {
    let id = new_claimant_id();
    assert!(id.starts_with("voice_"));
    assert_ne!(id, new_claimant_id());
}

#[test]
fn an_interrupt_bumps_the_generation_without_minting_a_turn() {
    let mut tracker = TurnTracker::new();
    let turn = tracker.begin_voice_turn(1_000);
    tracker.commit(&turn);
    let before = tracker.generation();
    tracker.interrupt();
    assert_eq!(tracker.generation(), before + 1);
    assert_eq!(tracker.current().turn_id, turn.turn_id, "the id is unchanged: it is the same utterance");
    assert_eq!(tracker.committed().turn_generation, before + 1, "every in-flight tool call is stale at once");
}

#[test]
fn an_older_generation_never_drags_the_committed_turn_backwards() {
    let mut tracker = TurnTracker::new();
    let first = tracker.begin_voice_turn(1_000);
    assert!(tracker.commit(&first));
    let second = tracker.begin_voice_turn(2_000);
    assert!(tracker.commit(&second));
    // A late ASR result for the first turn arrives.
    assert!(!tracker.commit(&first), "the stale commit is refused");
    assert_eq!(tracker.committed().turn_id, second.turn_id);
}

#[test]
fn committing_the_same_turn_twice_changes_nothing() {
    let mut tracker = TurnTracker::new();
    let turn = tracker.begin_voice_turn(1_000);
    assert!(tracker.commit(&turn));
    assert!(!tracker.commit(&turn));
}

#[test]
fn an_empty_turn_id_commits_nothing() {
    let mut tracker = TurnTracker::new();
    assert!(!tracker.commit(&TurnRef::default()));
    assert!(tracker.committed().turn_id.is_empty());
}

#[test]
fn the_fallback_prefers_the_committed_turn_but_falls_back_to_the_current() {
    let mut tracker = TurnTracker::new();
    let turn = tracker.begin_voice_turn(1_000);
    assert_eq!(tracker.fallback_turn(), turn, "an uncommitted turn is the only candidate");
    tracker.commit(&turn);
    let next = tracker.begin_voice_turn(2_000);
    assert_eq!(tracker.fallback_turn(), turn);
    assert_ne!(tracker.fallback_turn(), next);
}

#[test]
fn adopting_a_known_turn_does_not_mint_a_second_one() {
    let mut tracker = TurnTracker::new();
    let first = tracker.begin_voice_turn(1_000);
    tracker.adopt(first.clone());
    assert_eq!(tracker.current(), &first);
    assert_eq!(tracker.generation(), 1, "the sequence did not advance");
}

#[test]
fn the_timing_constants_are_the_catalogued_ones() {
    assert_eq!(MAX_PENDING_AUDIO_CHUNKS, 30);
    assert_eq!(RESPONSE_START_WATCHDOG_MS, 12_000);
    assert_eq!(PERMISSION_RESPONSE_GRACE_MS, 800);
    assert_eq!(RESPONSE_CONTEXT_CLEANUP_MS, 30_000);
    assert_eq!(REALTIME_STABLE_CONNECTION_MS, 10_000);
    assert_eq!(WAKE_CONNECT_MAX_ATTEMPTS, 3);
    assert_eq!(WAKE_CONNECT_RETRY_BACKOFF_MS, 350);
    assert_eq!(REALTIME_ROUTE, "/api/realtime");
}

#[test]
fn a_turn_from_a_newer_correlation_is_adopted_and_committed_as_it_is() {
    let mut tracker = TurnTracker::new();
    let foreign = TurnRef::new("voice-9-9", 9);
    tracker.adopt(foreign.clone());
    assert_eq!(tracker.current(), &foreign);
    assert!(tracker.commit(&foreign));
    assert_eq!(tracker.committed(), &foreign);
    let next = tracker.begin_voice_turn(1_000);
    assert_eq!(next.turn_generation, 1, "adopting mints no generation");
}

#[test]
fn a_claimant_id_carries_a_hyphenated_version_four_uuid() {
    let id = new_claimant_id();
    let uuid: Vec<char> = id["voice_".len()..].chars().collect();
    assert_eq!(uuid.len(), 36);
    for (i, c) in uuid.iter().enumerate() {
        if [8, 13, 18, 23].contains(&i) {
            assert_eq!(*c, '-');
        } else {
            assert!(c.is_ascii_digit() || ('a'..='f').contains(c), "{id}");
        }
    }
    assert_eq!(uuid[14], '4');
    assert!(['8', '9', 'a', 'b'].contains(&uuid[19]));
}
