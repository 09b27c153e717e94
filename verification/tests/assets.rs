use std::sync::atomic::{AtomicI64, Ordering};
use std::sync::Arc;

use via_voice::assets::{fingerprint, session_key, InputAssetRegistry, DEFAULT_SESSION_TTL_MS};
use via_voice::clock::Clock;
use via_voice::input::parts::InputPart;

struct TestClock(Arc<AtomicI64>);

impl Clock for TestClock {
    fn now_ms(&self) -> i64 {
        self.0.load(Ordering::SeqCst)
    }
}

fn clock() -> (TestClock, Arc<AtomicI64>) {
    let now = Arc::new(AtomicI64::new(1_000));
    (TestClock(Arc::clone(&now)), now)
}

fn image(seed: &str) -> InputPart {
    InputPart::file("image/png", &format!("data:image/png;base64,{seed}"))
}

fn registry() -> (InputAssetRegistry<TestClock>, Arc<AtomicI64>) {
    let (clock, now) = clock();
    (InputAssetRegistry::with_clock(clock), now)
}

#[test]
fn handles_are_minted_in_order_and_bound_to_the_part() {
    let (mut registry, _) = registry();
    let parts = registry.register_parts("alice", "main", "voice-1", &[InputPart::text("look"), image("AAAA"), image("BBBB")]);
    assert_eq!(parts.len(), 3);
    assert_eq!(parts[0].reference(), "", "text parts are untouched");
    assert_eq!(parts[1].reference(), "input_1");
    assert_eq!(parts[2].reference(), "input_2");
}

#[test]
fn the_same_attachment_reuses_its_handle() {
    let (mut registry, _) = registry();
    registry.register_parts("alice", "main", "voice-1", &[image("AAAA")]);
    let again = registry.register_parts("alice", "main", "voice-2", &[image("AAAA")]);
    assert_eq!(again[0].reference(), "input_1");
    assert_eq!(registry.asset_count("alice", "main"), 1);
}

#[test]
fn a_fingerprint_cannot_be_forged_across_the_separator() {
    let one = InputPart::file("image/pn", "data:image/png;base64,AA==");
    let two = InputPart::file("image/pn\u{0}", "data:image/png;base64,AA==");
    assert_ne!(fingerprint(&one), fingerprint(&two));
}

#[test]
fn resolution_returns_the_registered_bytes() {
    let (mut registry, _) = registry();
    registry.register_parts("alice", "main", "voice-1", &[image("AAAA")]);
    let resolved = registry.resolve("alice", "main", &["input_1".to_owned()]).expect("a registered handle resolves");
    assert_eq!(resolved.len(), 1);
    assert_eq!(resolved[0].url(), "data:image/png;base64,AAAA");
}

#[test]
fn resolution_is_scoped_so_another_session_cannot_be_reached() {
    let (mut registry, _) = registry();
    registry.register_parts("alice", "main", "voice-1", &[image("AAAA")]);
    let error = registry.resolve("alice", "other", &["input_1".to_owned()]).expect_err("a different session holds nothing");
    assert!(error.session_expired);
    let error = registry.resolve("bob", "main", &["input_1".to_owned()]).expect_err("a different owner holds nothing");
    assert!(error.session_expired);
}

#[test]
fn a_fabricated_handle_in_a_live_session_is_a_not_found() {
    let (mut registry, _) = registry();
    registry.register_parts("alice", "main", "voice-1", &[image("AAAA")]);
    let error = registry.resolve("alice", "main", &["input_99".to_owned()]).expect_err("the model invented a handle");
    assert!(!error.session_expired);
    assert_eq!(error.reference.as_deref(), Some("input_99"));
}

#[test]
fn duplicates_collapse_and_blanks_are_dropped() {
    let (mut registry, _) = registry();
    registry.register_parts("alice", "main", "voice-1", &[image("AAAA"), image("BBBB")]);
    let resolved = registry
        .resolve("alice", "main", &[" input_2 ".to_owned(), "input_1".to_owned(), "input_2".to_owned(), "  ".to_owned()])
        .expect("resolves");
    assert_eq!(resolved.len(), 2);
    assert_eq!(resolved[0].url(), "data:image/png;base64,BBBB", "first-seen order");
}

#[test]
fn an_empty_reference_list_answers_empty_without_touching_the_session() {
    let (mut registry, _) = registry();
    assert_eq!(registry.resolve("nobody", "nowhere", &[]).expect("empty"), Vec::new());
}

#[test]
fn the_asset_cap_evicts_oldest_first() {
    let (clock, _) = clock();
    let mut registry = InputAssetRegistry::with_clock(clock).max_assets_per_session(2);
    for seed in ["AAAA", "BBBB", "CCCC"] {
        registry.register_parts("alice", "main", "voice-1", &[image(seed)]);
    }
    assert_eq!(registry.asset_count("alice", "main"), 2);
    assert!(registry.resolve("alice", "main", &["input_1".to_owned()]).is_err());
    assert!(registry.resolve("alice", "main", &["input_3".to_owned()]).is_ok());
}

#[test]
fn the_byte_cap_evicts_too_and_the_fingerprint_goes_with_it() {
    let (clock, _) = clock();
    let mut registry = InputAssetRegistry::with_clock(clock).max_bytes_per_session(6);
    registry.register_parts("alice", "main", "voice-1", &[image("AAAAAAAA")]);
    registry.register_parts("alice", "main", "voice-1", &[image("BBBBBBBB")]);
    assert_eq!(registry.asset_count("alice", "main"), 1);
    let again = registry.register_parts("alice", "main", "voice-1", &[image("AAAAAAAA")]);
    assert_eq!(again[0].reference(), "input_3");
}

#[test]
fn a_session_expires_after_the_ttl() {
    let (mut registry, now) = registry();
    registry.register_parts("alice", "main", "voice-1", &[image("AAAA")]);
    now.store(1_000 + DEFAULT_SESSION_TTL_MS, Ordering::SeqCst);
    let error = registry.resolve("alice", "main", &["input_1".to_owned()]).expect_err("expired");
    assert!(error.session_expired);
    assert_eq!(registry.session_count(), 0);
}

#[test]
fn the_session_cap_evicts_the_least_recently_used() {
    let (clock, now) = clock();
    let mut registry = InputAssetRegistry::with_clock(clock).max_sessions(2);
    for (index, session) in ["a", "b"].into_iter().enumerate() {
        now.store(1_000 + i64::try_from(index).unwrap_or_default(), Ordering::SeqCst);
        registry.register_parts("alice", session, "voice-1", &[image("AAAA")]);
    }
    now.store(1_010, Ordering::SeqCst);
    registry.register_parts("alice", "c", "voice-1", &[image("AAAA")]);
    assert_eq!(registry.session_count(), 2);
    assert!(registry.resolve("alice", "a", &["input_1".to_owned()]).is_err());
    assert!(registry.resolve("alice", "c", &["input_1".to_owned()]).is_ok());
}

#[test]
fn metadata_lists_only_parts_that_have_a_handle() {
    let (mut registry, _) = registry();
    let registered = registry.register_parts("alice", "main", "voice-1", &[image("AAAA")]);
    let unregistered = InputPart::File {
        mime: "text/plain".to_owned(),
        filename: Some("notes.txt".to_owned()),
        url: "https://example.test/n".to_owned(),
        source: None,
        meta: None,
    };
    let mut parts = registered;
    parts.push(unregistered);
    let metadata = registry.metadata_for_parts(&parts);
    assert_eq!(metadata.len(), 1);
    assert_eq!(metadata[0].reference, "input_1");
    assert_eq!(metadata[0].kind, "image");
    assert_eq!(metadata[0].label, "[Image 1]");
    assert_eq!(metadata[0].mime, "image/png");
}

#[test]
fn a_non_image_attachment_is_labelled_file() {
    let (mut registry, _) = registry();
    let part = InputPart::File {
        mime: "application/pdf".to_owned(),
        filename: Some("spec.pdf".to_owned()),
        url: "https://example.test/spec.pdf".to_owned(),
        source: None,
        meta: None,
    };
    let parts = registry.register_parts("alice", "main", "voice-1", &[part]);
    let metadata = registry.metadata_for_parts(&parts);
    assert_eq!(metadata[0].kind, "file");
    assert_eq!(metadata[0].label, "@spec.pdf");
    assert_eq!(metadata[0].filename.as_deref(), Some("spec.pdf"));
}

#[test]
fn a_remote_attachment_costs_no_bytes_against_the_session_budget() {
    let (clock, _) = clock();
    let mut registry = InputAssetRegistry::with_clock(clock).max_bytes_per_session(1);
    let remote = InputPart::file("text/plain", "https://example.test/a");
    registry.register_parts("alice", "main", "voice-1", &[remote]);
    assert_eq!(registry.asset_count("alice", "main"), 1, "zero bytes, not evicted");
}

#[test]
fn a_fingerprint_is_a_sha256_hex_digest() {
    let part = InputPart::file("image/png", "data:image/png;base64,AA==");
    let digest = fingerprint(&part);
    assert_eq!(digest.len(), 64);
    assert!(digest.chars().all(|c| c.is_ascii_hexdigit() && !c.is_ascii_uppercase()));
    assert_eq!(digest, fingerprint(&part.clone()));
    assert_ne!(digest, fingerprint(&InputPart::file("image/png", "data:image/png;base64,AB==")));
}

#[test]
fn the_session_key_separates_owner_and_session() {
    assert_ne!(session_key("a", "bc"), session_key("ab", "c"));
    assert_eq!(session_key("alice", "main"), session_key("alice", "main"));
}

#[test]
fn a_read_after_a_write_gives_back_the_registered_part() {
    let (mut registry, _) = registry();
    let written = registry.register_parts("alice", "main", "voice-1", &[image("QUJD")]);
    let read = registry.resolve("alice", "main", &[written[0].reference().to_owned()]).expect("resolves");
    assert_eq!(read, vec![written[0].clone()]);
}
