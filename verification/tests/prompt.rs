use via_voice::prompt::{assemble_frontend_instructions, assistant_profile_block, ASSISTANT_PROFILE_CLOSE_TAG, ASSISTANT_PROFILE_HEADING};

#[test]
fn the_blocks_are_in_the_catalogued_order() {
    let assembled = assemble_frontend_instructions(
        "CORE POLICY",
        "PERSONA",
        "<runtime_context>\nchannel=full_duplex_voice\n</runtime_context>",
    );
    let prompt_at = assembled.find("CORE POLICY").expect("the prompt is present");
    let profile_at = assembled.find(ASSISTANT_PROFILE_HEADING).expect("the persona heading is present");
    let context_at = assembled.find("<runtime_context>").expect("the context is present");
    assert!(prompt_at < profile_at, "policy outranks persona");
    assert!(profile_at < context_at, "persona precedes environment");
    assert!(assembled.contains("\n\n"), "blocks are blank-line separated");
}

#[test]
fn the_persona_block_carries_its_authority_attribute() {
    let block = assistant_profile_block("  PERSONA  ");
    assert_eq!(block, "# Assistant Profile\n<assistant_profile authority=\"persona_only\">\nPERSONA\n</assistant_profile>");
}

#[test]
fn an_empty_context_block_is_dropped_entirely() {
    let assembled = assemble_frontend_instructions("CORE", "PERSONA", "   ");
    assert!(assembled.ends_with(ASSISTANT_PROFILE_CLOSE_TAG));
    assert!(!assembled.ends_with("\n\n"));
}

#[test]
fn the_policy_always_comes_first() {
    let assembled = assemble_frontend_instructions("  POLICY ", "", "CONTEXT");
    assert!(assembled.starts_with("POLICY"));
    assert!(assembled.ends_with("CONTEXT"));
}
