//! The inbound POST bodies: a session id, a message, and an optional image
//! reference. The intermediate form is what the HTTP layer decodes; the
//! request form is what the dispatcher queues.

use vstd::prelude::*;

verus! {

/// An inbound OpenAI-route POST body, as decoded by the HTTP layer.
pub struct OpenAiRequestIntermediate {
    pub uuid: String,
    pub message: String,
    pub image: Option<String>,
}

/// A queued OpenAI-route request.
pub struct OpenAiRequest {
    pub uuid: String,
    pub message: String,
    pub image: Option<String>,
}

impl From<OpenAiRequestIntermediate> for OpenAiRequest {
    fn from(intermediate: OpenAiRequestIntermediate) -> (r: OpenAiRequest) {
        OpenAiRequest {
            uuid: intermediate.uuid,
            message: intermediate.message,
            image: intermediate.image,
        }
    }
}

impl vstd::std_specs::convert::FromSpecImpl<OpenAiRequestIntermediate> for OpenAiRequest {
    open spec fn obeys_from_spec() -> bool {
        true
    }

    open spec fn from_spec(v: OpenAiRequestIntermediate) -> OpenAiRequest {
        OpenAiRequest { uuid: v.uuid, message: v.message, image: v.image }
    }
}

/// An inbound Anthropic-route POST body, as decoded by the HTTP layer.
pub struct ClaudeRequestIntermediate {
    pub uuid: String,
    pub message: String,
    pub image: Option<String>,
}

/// A queued Anthropic-route request.
pub struct ClaudeRequest {
    pub uuid: String,
    pub message: String,
    pub image: Option<String>,
}

impl From<ClaudeRequestIntermediate> for ClaudeRequest {
    fn from(intermediate: ClaudeRequestIntermediate) -> (r: ClaudeRequest) {
        ClaudeRequest {
            uuid: intermediate.uuid,
            message: intermediate.message,
            image: intermediate.image,
        }
    }
}

impl vstd::std_specs::convert::FromSpecImpl<ClaudeRequestIntermediate> for ClaudeRequest {
    open spec fn obeys_from_spec() -> bool {
        true
    }

    open spec fn from_spec(v: ClaudeRequestIntermediate) -> ClaudeRequest {
        ClaudeRequest { uuid: v.uuid, message: v.message, image: v.image }
    }
}

} // verus!
