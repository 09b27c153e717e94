use std::sync::atomic::{AtomicBool, AtomicUsize, Ordering};
use std::sync::Arc;

use via_voice::clients::{client_voice_capabilities, ActiveVoiceClients, DeclaredCapabilities, VoiceCapabilities, VoiceClient};

struct TestClient {
    id: String,
    alive: AtomicBool,
    deactivated: AtomicUsize,
}

impl TestClient {
    fn new(id: &str) -> Arc<Self> {
        Arc::new(Self { id: id.to_owned(), alive: AtomicBool::new(true), deactivated: AtomicUsize::new(0) })
    }
}

impl VoiceClient for TestClient {
    fn client_id(&self) -> &str {
        &self.id
    }
    fn is_alive(&self) -> bool {
        self.alive.load(Ordering::SeqCst)
    }
    fn deactivate(&self, _replacement_id: &str) {
        self.deactivated.fetch_add(1, Ordering::SeqCst);
    }
}

#[test]
fn the_first_claim_is_granted_with_no_previous() {
    let mut clients: ActiveVoiceClients<dyn VoiceClient> = ActiveVoiceClients::new();
    let result = clients.activate("owner", TestClient::new("a"), false);
    assert!(result.granted);
    assert!(result.previous.is_none());
    assert!(clients.is_active("owner", "a"));
    assert_eq!(clients.len(), 1);
}

#[test]
fn re_claiming_reports_no_previous_because_nothing_moved() {
    let mut clients: ActiveVoiceClients<dyn VoiceClient> = ActiveVoiceClients::new();
    let client = TestClient::new("a");
    clients.activate("owner", Arc::clone(&client) as Arc<dyn VoiceClient>, false);
    let result = clients.activate("owner", Arc::clone(&client) as Arc<dyn VoiceClient>, false);
    assert!(result.granted);
    assert!(result.previous.is_none());
    assert_eq!(client.deactivated.load(Ordering::SeqCst), 0);
}

#[test]
fn a_live_holder_refuses_a_claim_without_takeover() {
    let mut clients: ActiveVoiceClients<dyn VoiceClient> = ActiveVoiceClients::new();
    let first = TestClient::new("a");
    clients.activate("owner", Arc::clone(&first) as Arc<dyn VoiceClient>, false);
    let result = clients.activate("owner", TestClient::new("b"), false);
    assert!(!result.granted);
    assert_eq!(result.previous.as_ref().map(|client| client.client_id()), Some("a"));
    assert!(clients.is_active("owner", "a"), "the holder kept the slot");
    assert_eq!(first.deactivated.load(Ordering::SeqCst), 0);
}

#[test]
fn takeover_evicts_the_live_holder_and_tells_it() {
    let mut clients: ActiveVoiceClients<dyn VoiceClient> = ActiveVoiceClients::new();
    let first = TestClient::new("a");
    clients.activate("owner", Arc::clone(&first) as Arc<dyn VoiceClient>, false);
    let result = clients.activate("owner", TestClient::new("b"), true);
    assert!(result.granted);
    assert_eq!(result.previous.as_ref().map(|client| client.client_id()), Some("a"));
    assert_eq!(first.deactivated.load(Ordering::SeqCst), 1);
    assert!(clients.is_active("owner", "b"));
}

#[test]
fn a_dead_holder_never_blocks_a_new_claim() {
    let mut clients: ActiveVoiceClients<dyn VoiceClient> = ActiveVoiceClients::new();
    let first = TestClient::new("a");
    first.alive.store(false, Ordering::SeqCst);
    clients.activate("owner", Arc::clone(&first) as Arc<dyn VoiceClient>, false);
    // No takeover flag: the network dropped, nobody pressed anything.
    let result = clients.activate("owner", TestClient::new("b"), false);
    assert!(result.granted, "a dead holder is treated as absent");
    assert!(clients.is_active("owner", "b"));
}

#[test]
fn a_client_that_does_not_report_liveness_is_treated_as_alive() {
    struct Silent(String);
    impl VoiceClient for Silent {
        fn client_id(&self) -> &str {
            &self.0
        }
    }
    let mut clients = ActiveVoiceClients::new();
    clients.activate("owner", Arc::new(Silent("a".to_owned())), false);
    let result = clients.activate("owner", Arc::new(Silent("b".to_owned())), false);
    assert!(!result.granted, "unknown liveness must not permit eviction");
}

#[test]
fn release_only_succeeds_for_the_current_holder() {
    let mut clients: ActiveVoiceClients<dyn VoiceClient> = ActiveVoiceClients::new();
    clients.activate("owner", TestClient::new("a"), false);
    assert!(!clients.release("owner", "b"), "a stale client releases nothing");
    assert!(clients.is_active("owner", "a"));
    assert!(clients.release("owner", "a"));
    assert!(clients.is_empty());
    assert!(!clients.release("owner", "a"), "releasing twice changes nothing");
}

#[test]
fn owners_are_independent() {
    let mut clients: ActiveVoiceClients<dyn VoiceClient> = ActiveVoiceClients::new();
    clients.activate("alice", TestClient::new("a"), false);
    clients.activate("bob", TestClient::new("b"), false);
    assert_eq!(clients.len(), 2);
    assert!(clients.is_active("alice", "a"));
    assert!(clients.is_active("bob", "b"));
    assert!(!clients.is_active("alice", "b"));
}

#[test]
fn the_active_client_of_an_owner_is_the_holder() {
    let mut clients: ActiveVoiceClients<dyn VoiceClient> = ActiveVoiceClients::new();
    assert!(clients.active("owner").is_none());
    clients.activate("owner", TestClient::new("a"), false);
    assert_eq!(clients.active("owner").map(|c| c.client_id().to_owned()), Some("a".to_owned()));
}

#[test]
fn the_legacy_flag_is_used_only_when_the_explicit_pair_is_absent() {
    let legacy = client_voice_capabilities(DeclaredCapabilities { voice_enabled: true, ..DeclaredCapabilities::default() });
    assert_eq!(
        legacy,
        VoiceCapabilities { input_enabled: true, output_enabled: true, participates_in_voice_arbitration: true },
    );
    let explicit = client_voice_capabilities(DeclaredCapabilities {
        voice_enabled: true,
        output_enabled: Some(false),
        ..DeclaredCapabilities::default()
    });
    assert!(!explicit.output_enabled);
    assert!(!explicit.input_enabled, "input defaults to output");
}

#[test]
fn text_only_vetoes_input_and_arbitration_but_not_output() {
    let capabilities = client_voice_capabilities(DeclaredCapabilities {
        voice_enabled: true,
        input_enabled: Some(true),
        output_enabled: Some(true),
        text_only: true,
    });
    assert!(!capabilities.input_enabled);
    assert!(capabilities.output_enabled, "a text client still hears results");
    assert!(!capabilities.participates_in_voice_arbitration);
}

#[test]
fn a_silent_client_participates_in_nothing() {
    let capabilities = client_voice_capabilities(DeclaredCapabilities::default());
    assert_eq!(capabilities, VoiceCapabilities::default());
}

#[test]
fn an_output_only_client_still_takes_the_voice_slot() {
    // It owns the speaker, so a second client must not talk over it.
    let capabilities = client_voice_capabilities(DeclaredCapabilities {
        input_enabled: Some(false),
        output_enabled: Some(true),
        ..DeclaredCapabilities::default()
    });
    assert!(!capabilities.input_enabled);
    assert!(capabilities.participates_in_voice_arbitration);
}

#[test]
fn the_claim_is_decided_by_the_holders_liveness_and_takeover() {
    for (alive, takeover, granted) in [(true, false, false), (true, true, true), (false, false, true), (false, true, true)] {
        let mut clients: ActiveVoiceClients<dyn VoiceClient> = ActiveVoiceClients::new();
        clients.activate_decided("owner", "a", TestClient::new("a"), false, true);
        let result = clients.activate_decided("owner", "b", TestClient::new("b"), takeover, alive);
        assert_eq!(result.granted, granted, "alive {alive}, takeover {takeover}");
        assert_eq!(clients.is_active("owner", "b"), granted);
        assert_eq!(clients.is_active("owner", "a"), !granted);
    }
}

#[test]
fn a_release_by_the_holder_frees_exactly_one_slot() {
    let mut clients: ActiveVoiceClients<dyn VoiceClient> = ActiveVoiceClients::new();
    clients.activate_as("one", "a", TestClient::new("a"), false);
    clients.activate_as("two", "b", TestClient::new("b"), false);
    assert!(!clients.release("one", "b"));
    assert_eq!(clients.len(), 2);
    assert!(clients.release("one", "a"));
    assert_eq!(clients.len(), 1);
    assert!(!clients.release("one", "a"));
}

#[test]
fn a_granted_claim_hands_the_slot_to_the_claimant_object() {
    let mut clients: ActiveVoiceClients<dyn VoiceClient> = ActiveVoiceClients::new();
    let other = TestClient::new("x");
    let first = TestClient::new("a");
    clients.activate("other", Arc::clone(&other) as Arc<dyn VoiceClient>, false);
    clients.activate("owner", Arc::clone(&first) as Arc<dyn VoiceClient>, false);
    first.alive.store(false, Ordering::SeqCst);
    let second = TestClient::new("b");
    let second_dyn: Arc<dyn VoiceClient> = Arc::clone(&second) as Arc<dyn VoiceClient>;
    let result = clients.activate("owner", Arc::clone(&second_dyn), false);
    assert!(result.granted);
    let holder = clients.active("owner").expect("the slot is held");
    assert!(Arc::ptr_eq(&holder, &second_dyn));
    let kept = clients.active("other").expect("the other slot is held");
    assert!(Arc::ptr_eq(&kept, &(Arc::clone(&other) as Arc<dyn VoiceClient>)));
    assert_eq!(first.deactivated.load(Ordering::SeqCst), 1);
    assert_eq!(other.deactivated.load(Ordering::SeqCst), 0);
}
