use via_voice::provider::{ErrorClassification, ProviderCapabilities};

#[test]
fn the_default_capabilities_are_upstreams_five() {
    let capabilities = ProviderCapabilities::default();
    assert!(capabilities.acknowledges_session_update);
    assert!(!capabilities.single_response_slot);
    assert!(!capabilities.response_metadata_correlation);
    assert!(!capabilities.per_response_instructions);
    assert!(capabilities.conversation_item_id_echo);
}

#[test]
fn the_flag_names_match_the_declared_flags_in_order() {
    let names: Vec<&str> = ProviderCapabilities::default().flags().iter().map(|(name, _)| *name).collect();
    assert_eq!(names, ProviderCapabilities::flag_names().to_vec());
}

#[test]
fn the_default_flags_carry_the_default_values() {
    assert_eq!(
        ProviderCapabilities::default().flags(),
        [
            ("acknowledgesSessionUpdate", true),
            ("singleResponseSlot", false),
            ("responseMetadataCorrelation", false),
            ("perResponseInstructions", false),
            ("conversationItemIdEcho", true),
        ],
    );
}

#[test]
fn an_unclassified_message_is_other_and_is_shown_to_the_user() {
    assert_eq!(ErrorClassification::default(), ErrorClassification::Other);
    assert!(ErrorClassification::Other.is_user_facing());
    assert!(!ErrorClassification::Other.is_silent());
}

#[test]
fn the_two_housekeeping_classifications_never_reach_the_user() {
    assert!(!ErrorClassification::Inactivity.is_user_facing());
    assert!(!ErrorClassification::Fatal.is_user_facing());
    assert!(ErrorClassification::CapacityBusy.is_silent());
    assert!(ErrorClassification::NoActiveResponse.is_silent());
}
