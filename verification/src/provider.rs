//! What the voice layer needs to know about the realtime provider.
//!
//! Only the narrow read-only view the voice layer consumes is declared here:
//! the five behavioural capability flags, the error classification, and the
//! trait a provider adapter implements.

use vstd::prelude::*;

verus! {

/// The five behavioural capability flags a provider declares.
#[derive(Clone, Copy, Debug, PartialEq, Eq, Hash)]
pub struct ProviderCapabilities {
    /// Acknowledges `session.update` with `session.updated`. Default `true`.
    pub acknowledges_session_update: bool,
    /// The provider has one response slot, so a refusal is transient and the
    /// payload is replayed. Default `false`.
    pub single_response_slot: bool,
    /// Echoes response metadata so client-created responses can be
    /// correlated. Default `false`.
    pub response_metadata_correlation: bool,
    /// Applies `instructions` supplied on one `response.create`. Default
    /// `false`; the response guards need it.
    pub per_response_instructions: bool,
    /// Echoes a client-assigned item id in `conversation.item.created`.
    /// Default `true`.
    pub conversation_item_id_echo: bool,
}

impl Default for ProviderCapabilities {
    /// The shared protocol baseline.
    fn default() -> (r: Self)
        ensures
            r.acknowledges_session_update,
            !r.single_response_slot,
            !r.response_metadata_correlation,
            !r.per_response_instructions,
            r.conversation_item_id_echo,
    {
        ProviderCapabilities {
            acknowledges_session_update: true,
            single_response_slot: false,
            response_metadata_correlation: false,
            per_response_instructions: false,
            conversation_item_id_echo: true,
        }
    }
}

/// The wire name of the `acknowledgesSessionUpdate` flag.
pub const ACKNOWLEDGES_SESSION_UPDATE: &'static str = "acknowledgesSessionUpdate";
/// The wire name of the `singleResponseSlot` flag.
pub const SINGLE_RESPONSE_SLOT: &'static str = "singleResponseSlot";
/// The wire name of the `responseMetadataCorrelation` flag.
pub const RESPONSE_METADATA_CORRELATION: &'static str = "responseMetadataCorrelation";
/// The wire name of the `perResponseInstructions` flag.
pub const PER_RESPONSE_INSTRUCTIONS: &'static str = "perResponseInstructions";
/// The wire name of the `conversationItemIdEcho` flag.
pub const CONVERSATION_ITEM_ID_ECHO: &'static str = "conversationItemIdEcho";

impl ProviderCapabilities {
    /// The five flag names, in declaration order.
    pub fn flag_names() -> (r: [&'static str; 5])
        ensures
            r[0]@ == ACKNOWLEDGES_SESSION_UPDATE@,
            r[1]@ == SINGLE_RESPONSE_SLOT@,
            r[2]@ == RESPONSE_METADATA_CORRELATION@,
            r[3]@ == PER_RESPONSE_INSTRUCTIONS@,
            r[4]@ == CONVERSATION_ITEM_ID_ECHO@,
    {
        [
            ACKNOWLEDGES_SESSION_UPDATE,
            SINGLE_RESPONSE_SLOT,
            RESPONSE_METADATA_CORRELATION,
            PER_RESPONSE_INSTRUCTIONS,
            CONVERSATION_ITEM_ID_ECHO,
        ]
    }

    /// This capability set's flags, paired with their wire names, in
    /// declaration order.
    pub fn flags(&self) -> (r: [(&'static str, bool); 5])
        ensures
            r[0].0@ == ACKNOWLEDGES_SESSION_UPDATE@,
            r[0].1 == self.acknowledges_session_update,
            r[1].0@ == SINGLE_RESPONSE_SLOT@,
            r[1].1 == self.single_response_slot,
            r[2].0@ == RESPONSE_METADATA_CORRELATION@,
            r[2].1 == self.response_metadata_correlation,
            r[3].0@ == PER_RESPONSE_INSTRUCTIONS@,
            r[3].1 == self.per_response_instructions,
            r[4].0@ == CONVERSATION_ITEM_ID_ECHO@,
            r[4].1 == self.conversation_item_id_echo,
    {
        [
            (ACKNOWLEDGES_SESSION_UPDATE, self.acknowledges_session_update),
            (SINGLE_RESPONSE_SLOT, self.single_response_slot),
            (RESPONSE_METADATA_CORRELATION, self.response_metadata_correlation),
            (PER_RESPONSE_INSTRUCTIONS, self.per_response_instructions),
            (CONVERSATION_ITEM_ID_ECHO, self.conversation_item_id_echo),
        ]
    }
}

/// How the gateway should react to a provider error message.
#[derive(Clone, Copy, Debug, PartialEq, Eq, Hash)]
pub enum ErrorClassification {
    /// Unrecognized; surfaced to the user as an `error` frame.
    Other,
    /// The provider closed an idle response scope; housekeeping.
    Inactivity,
    /// A single-slot provider refused a concurrent `response.create`.
    ResponseSlotBusy,
    /// The provider is still consuming input.
    InputBusy,
    /// A capacity-bounded provider is still draining a previous session.
    CapacityBusy,
    /// A cancel raced a response that had already finished.
    NoActiveResponse,
    /// The session cannot be used at all.
    Fatal,
}

impl Default for ErrorClassification {
    /// The harmless default: a message that was not classified is shown.
    fn default() -> (r: Self)
        ensures
            r == ErrorClassification::Other,
    {
        ErrorClassification::Other
    }
}

impl ErrorClassification {
    /// Whether the gateway shows this to the user as an `error` frame:
    /// everything except an inactivity close and a fatal block.
    pub fn is_user_facing(self) -> (r: bool)
        ensures
            r == !(self == ErrorClassification::Inactivity || self == ErrorClassification::Fatal),
    {
        match self {
            ErrorClassification::Inactivity | ErrorClassification::Fatal => false,
            _ => true,
        }
    }

    /// Whether the gateway swallows this event entirely.
    pub fn is_silent(self) -> (r: bool)
        ensures
            r == (self == ErrorClassification::CapacityBusy || self
                == ErrorClassification::NoActiveResponse),
    {
        match self {
            ErrorClassification::CapacityBusy | ErrorClassification::NoActiveResponse => true,
            _ => false,
        }
    }
}

/// The read-only view of the provider that the voice layer consumes,
/// implemented over the realtime layer's provider by the embedding app.
pub trait ProviderView {
    /// The provider key — `dashscope`, `speech-to-speech`, `mock`, …
    fn key(&self) -> &str;
    /// A human label.
    fn label(&self) -> &str;
    /// The rate the client must capture at, in hertz.
    fn input_sample_rate(&self) -> u32;
    /// The rate response audio arrives at, in hertz.
    fn output_sample_rate(&self) -> u32;
    /// The five behavioural flags.
    fn capabilities(&self) -> ProviderCapabilities;
    /// Classify a provider error message; unclassified by default.
    fn classify_error(&self, message: &str) -> ErrorClassification {
        ErrorClassification::Other
    }
    /// How long to wait for a response to start, in milliseconds; `None`
    /// falls back to the session's watchdog.
    fn response_start_timeout_ms(&self) -> Option<u64> {
        None
    }
}

} // verus!
