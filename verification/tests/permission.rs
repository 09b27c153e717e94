use std::sync::atomic::{AtomicI64, Ordering};
use std::sync::Arc;

use via_voice::clock::Clock;
use via_voice::permission::{PermissionDecision, PermissionMode, SessionPermissionPolicy, DEFAULT_TTL_MS};

struct TestClock(Arc<AtomicI64>);

impl Clock for TestClock {
    fn now_ms(&self) -> i64 {
        self.0.load(Ordering::SeqCst)
    }
}

fn clock() -> (TestClock, Arc<AtomicI64>) {
    let now = Arc::new(AtomicI64::new(0));
    (TestClock(Arc::clone(&now)), now)
}

#[test]
fn an_unknown_session_asks() {
    let (clock, _) = clock();
    let mut policy = SessionPermissionPolicy::with_clock(clock);
    assert_eq!(policy.mode("alice", "main"), PermissionMode::Ask);
    assert!(!policy.should_auto_allow("alice", "main"));
}

#[test]
fn always_relaxes_and_reject_restores() {
    let (clock, _) = clock();
    let mut policy = SessionPermissionPolicy::with_clock(clock);
    policy.apply_decision("alice", "main", PermissionDecision::Always);
    assert!(policy.should_auto_allow("alice", "main"));
    policy.apply_decision("alice", "main", PermissionDecision::Reject);
    assert!(!policy.should_auto_allow("alice", "main"));
}

#[test]
fn the_relaxation_is_scoped_to_one_owner_and_one_session() {
    let (clock, _) = clock();
    let mut policy = SessionPermissionPolicy::with_clock(clock);
    policy.apply_decision("alice", "main", PermissionDecision::Always);
    assert!(!policy.should_auto_allow("alice", "other"));
    assert!(!policy.should_auto_allow("bob", "main"));
}

#[test]
fn an_empty_session_id_is_main() {
    let (clock, _) = clock();
    let mut policy = SessionPermissionPolicy::with_clock(clock);
    policy.apply_decision("alice", "", PermissionDecision::Always);
    assert!(policy.should_auto_allow("alice", "main"));
    assert_eq!(policy.len(), 1);
}

#[test]
fn ordinary_owner_and_session_ids_never_collide() {
    let (clock, _) = clock();
    let mut policy = SessionPermissionPolicy::with_clock(clock);
    policy.apply_decision("user_personal", "main", PermissionDecision::Always);
    for (owner, session) in
        [("user_personal", "main2"), ("user_personal2", "main"), ("user", "personalmain"), ("user_personalmain", "")]
    {
        assert!(!policy.should_auto_allow(owner, session), "({owner}, {session}) must not inherit the relaxation");
    }
}

#[test]
fn a_relaxation_expires_at_the_ttl_boundary() {
    let (clock, now) = clock();
    let mut policy = SessionPermissionPolicy::with_clock(clock);
    policy.apply_decision("alice", "main", PermissionDecision::Always);
    now.store(DEFAULT_TTL_MS - 1, Ordering::SeqCst);
    assert!(policy.should_auto_allow("alice", "main"), "just inside");
    now.store(DEFAULT_TTL_MS, Ordering::SeqCst);
    assert!(!policy.should_auto_allow("alice", "main"), "exactly at the bound");
    assert!(policy.is_empty(), "and pruned");
}

#[test]
fn setting_a_mode_refreshes_the_ttl() {
    let (clock, now) = clock();
    let mut policy = SessionPermissionPolicy::with_clock(clock);
    policy.apply_decision("alice", "main", PermissionDecision::Always);
    now.store(DEFAULT_TTL_MS - 1, Ordering::SeqCst);
    policy.set_mode("alice", "main", PermissionMode::AutoAllow);
    now.store(DEFAULT_TTL_MS + 1, Ordering::SeqCst);
    assert!(policy.should_auto_allow("alice", "main"), "the refresh moved the deadline");
}

#[test]
fn the_session_cap_evicts_the_oldest() {
    let (clock, now) = clock();
    let mut policy = SessionPermissionPolicy::with_clock(clock).max_sessions(2);
    for (index, session) in ["a", "b", "c"].into_iter().enumerate() {
        now.store(i64::try_from(index).unwrap_or_default(), Ordering::SeqCst);
        policy.apply_decision("alice", session, PermissionDecision::Always);
    }
    assert_eq!(policy.len(), 2);
    assert!(!policy.should_auto_allow("alice", "a"), "the oldest went");
    assert!(policy.should_auto_allow("alice", "b"));
    assert!(policy.should_auto_allow("alice", "c"));
}

#[test]
fn an_unknown_stored_mode_fails_closed() {
    assert_eq!(PermissionMode::from_wire_or_ask("auto_allow"), PermissionMode::AutoAllow);
    for value in ["ask", "AUTO_ALLOW", "allow", "", "true"] {
        assert_eq!(PermissionMode::from_wire_or_ask(value), PermissionMode::Ask, "{value} must not grant");
    }
}

#[test]
fn only_the_two_decisions_parse() {
    assert_eq!(PermissionDecision::from_wire("always"), Some(PermissionDecision::Always));
    assert_eq!(PermissionDecision::from_wire("reject"), Some(PermissionDecision::Reject));
    for value in ["allow", "deny", "yes", "", "Always"] {
        assert_eq!(PermissionDecision::from_wire(value), None, "{value}");
    }
}
