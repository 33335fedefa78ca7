//! The upstream stream events as the state machine observes them, and the
//! semantic actions they classify into.

use vstd::prelude::*;

verus! {

/// One streaming fragment of a model-requested function call.
pub struct ToolCallFragment {
    pub name: Option<String>,
    pub arguments: String,
}

/// The delta carried by one choice of an OpenAI-compatible stream event.
pub struct OpenAiDelta {
    pub content: Option<String>,
    pub tool_calls: Option<Vec<ToolCallFragment>>,
}

/// One choice of an OpenAI-compatible stream event.
pub struct OpenAiChoice {
    pub delta: OpenAiDelta,
    pub finish_reason: Option<String>,
}

/// An OpenAI-compatible stream event: an id and its choices.
pub struct OpenAiEvent {
    pub id: String,
    pub choices: Vec<OpenAiChoice>,
}

/// The delta of an Anthropic-compatible stream event.
pub struct ClaudeDelta {
    pub text: Option<String>,
    pub partial_json: Option<String>,
}

/// An Anthropic-compatible stream event: a type tag and an optional delta.
pub struct ClaudeEvent {
    pub kind: Option<String>,
    pub delta: Option<ClaudeDelta>,
}

/// The semantic action one upstream event classifies into: emit text, hand a
/// reassembled function call to the dispatcher, stop, or do nothing.
pub enum MessageAction {
    SendBody(String),
    SendFunc(String),
    Stop,
    NoAction,
}

/// Why an event could not be classified. Both are treated as parse-level
/// failures: the worker logs them and reads on.
#[derive(Clone, Copy, Debug, PartialEq, Eq, Structural)]
pub enum ProcessError {
    EmptyChoices,
    MissingToolCall,
}

/// The finish reason that announces a completed tool call.
pub open spec fn tool_calls_reason() -> Seq<char> {
    seq!['t', 'o', 'o', 'l', '_', 'c', 'a', 'l', 'l', 's']
}

/// That finish reason, as a string slice.
pub fn tool_calls_str() -> (r: &'static str)
    ensures
        r@ == tool_calls_reason(),
{
    let s = "tool_calls";
    proof {
        reveal_strlit("tool_calls");
        assert(s@ =~= tool_calls_reason());
    }
    s
}

/// The event type tag that carries assistant text.
pub open spec fn content_block_delta_kind() -> Seq<char> {
    seq!['c', 'o', 'n', 't', 'e', 'n', 't', '_', 'b', 'l', 'o', 'c', 'k', '_', 'd', 'e', 'l', 't', 'a']
}

/// That type tag, as a string slice.
pub fn content_block_delta_str() -> (r: &'static str)
    ensures
        r@ == content_block_delta_kind(),
{
    let s = "content_block_delta";
    proof {
        reveal_strlit("content_block_delta");
        assert(s@ =~= content_block_delta_kind());
    }
    s
}

/// The event type tag that ends an Anthropic-compatible stream.
pub open spec fn message_stop_kind() -> Seq<char> {
    seq!['m', 'e', 's', 's', 'a', 'g', 'e', '_', 's', 't', 'o', 'p']
}

/// That type tag, as a string slice.
pub fn message_stop_str() -> (r: &'static str)
    ensures
        r@ == message_stop_kind(),
{
    let s = "message_stop";
    proof {
        reveal_strlit("message_stop");
        assert(s@ =~= message_stop_kind());
    }
    s
}

} // verus!
