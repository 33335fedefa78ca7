//! The Anthropic-compatible adapter's event classification.

use vstd::prelude::*;

use crate::events::{
    ClaudeEvent, MessageAction, content_block_delta_kind, content_block_delta_str,
    message_stop_kind, message_stop_str,
};
use crate::request::{
    ImagePart, WireMessage, assemble_messages, assembled_messages, base64_encode, base64_of,
    get_media_type, media_type_of, message_views,
};
use crate::text::str_eq;

verus! {

/// The token budget offered to the model.
pub const CLAUDE_MAX_TOKENS: i32 = 4096;

/// The body of one outgoing Anthropic-compatible request, as far as the
/// state machine decides it.
pub struct ClaudePayload {
    pub stream: bool,
    pub model: String,
    pub max_tokens: i32,
    pub messages: Vec<WireMessage>,
}


/// The exact classification of one Anthropic-compatible stream event: a
/// content-block delta with text emits that text, a message-stop tag stops,
/// and everything else does nothing.
pub open spec fn claude_action_post(ev: ClaudeEvent, r: MessageAction) -> bool {
    match ev.kind {
        Some(kind) => if kind@ == content_block_delta_kind() {
            match ev.delta {
                Some(d) => match d.text {
                    Some(t) => r matches MessageAction::SendBody(b) && b@ == t@,
                    None => r is NoAction,
                },
                None => r is NoAction,
            }
        } else if kind@ == message_stop_kind() {
            r is Stop
        } else {
            r is NoAction
        },
        None => r is NoAction,
    }
}

/// The Anthropic-compatible adapter. Classification holds no state: tool
/// calls are not part of this wire contract.
pub struct Claude {}

impl Claude {
    /// A fresh adapter.
    pub fn new() -> (r: Self) {
        Claude {  }
    }

    /// Build the body of one upstream request: the decoded history, then the
    /// current user turn, which carries the image (fetched by the caller)
    /// with a media type inferred from its URL suffix. This wire contract
    /// has no system role.
    pub fn create_request(
        &self,
        msg: &str,
        image: Option<(&Vec<u8>, &str)>,
        context: &str,
        model: &str,
    ) -> (r: ClaudePayload)
        ensures
            r.stream == true,
            r.model@ == model@,
            r.max_tokens == CLAUDE_MAX_TOKENS,
            message_views(r.messages@) =~~= assembled_messages(
                false,
                crate::codec::decode_pairs(context@),
                msg@,
            ),
            r.messages@.len() >= 1,
            match image {
                Some(im) => r.messages@.last().image matches Some(p) && p.media_type@
                    == media_type_of(im.1@) && p.data@ == base64_of(im.0@),
                None => r.messages@.last().image is None,
            },
    {
        let part: Option<ImagePart> = match image {
            Some((bytes, url)) => Some(
                ImagePart {
                    media_type: get_media_type(url).to_owned(),
                    data: base64_encode(bytes),
                },
            ),
            None => None,
        };
        let messages = assemble_messages(false, context, msg, part);
        ClaudePayload {
            stream: true,
            model: model.to_owned(),
            max_tokens: CLAUDE_MAX_TOKENS,
            messages,
        }
    }

    /// Classify one upstream event into its semantic action.
    pub fn process(&self, event: &ClaudeEvent) -> (r: MessageAction)
        ensures
            claude_action_post(*event, r),
    {
        match &event.kind {
            Some(kind) => {
                if str_eq(kind.as_str(), content_block_delta_str()) {
                    match &event.delta {
                        Some(d) => match &d.text {
                            Some(t) => MessageAction::SendBody(t.clone()),
                            None => MessageAction::NoAction,
                        },
                        None => MessageAction::NoAction,
                    }
                } else if str_eq(kind.as_str(), message_stop_str()) {
                    MessageAction::Stop
                } else {
                    MessageAction::NoAction
                }
            },
            None => MessageAction::NoAction,
        }
    }
}

} // verus!
