use via_voice::tools::instructions::{accepted_instructions, backend_disconnected_instructions};

const NOT_CONFIGURED: &str = "No backend is configured. Do not claim the task was created. Ask the user to connect one.";
const DISCONNECTED: &str = "The backend is disconnected.";
const DUPLICATE: &str = "This request was already submitted. Do not repeat the task. Do not read out any id. Do not call the tool again.";
const ACCEPTED: &str = "Tell the user the work has started.";
const NOT_FINISHED: &str = "Do not say the work is finished.";

#[test]
fn the_disconnected_instruction_keeps_the_shared_tail() {
    let disconnected = backend_disconnected_instructions(DISCONNECTED, NOT_CONFIGURED);
    assert!(disconnected.starts_with(DISCONNECTED));
    let shared_tail = NOT_CONFIGURED.split_once(' ').map(|(_, tail)| tail).unwrap_or_default();
    assert!(!shared_tail.is_empty());
    assert!(disconnected.ends_with(shared_tail));
    assert_ne!(disconnected, NOT_CONFIGURED);
    assert_eq!(disconnected, format!("{DISCONNECTED} {shared_tail}"));
}

#[test]
fn a_shared_block_without_a_space_leaves_the_head_alone() {
    assert_eq!(backend_disconnected_instructions(DISCONNECTED, "单句"), DISCONNECTED);
    assert_eq!(backend_disconnected_instructions(DISCONNECTED, "trailing "), DISCONNECTED);
}

#[test]
fn the_accepted_instruction_ends_with_the_not_finished_warning() {
    let accepted = accepted_instructions(DUPLICATE, ACCEPTED, NOT_FINISHED);
    assert!(accepted.ends_with(NOT_FINISHED));
    assert!(accepted.contains(ACCEPTED));
    assert_eq!(
        accepted,
        "request was Tell the user the work has started. Do not say the work is finished."
    );
}

#[test]
fn the_accepted_instruction_takes_the_second_and_third_space_pieces() {
    assert_eq!(accepted_instructions("a. b. c. d.", "E.", "F."), "b. c. E. F.");
    assert_eq!(accepted_instructions("only", "E.", "F."), " E. F.");
}
