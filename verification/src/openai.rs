//! The OpenAI-compatible adapter's event classification: each stream event
//! becomes a semantic action, and tool-call fragments are reassembled across
//! events in a per-adapter map keyed by event id.

use dashmap::DashMap;
use vstd::prelude::*;

use crate::events::{
    MessageAction, OpenAiEvent, ProcessError, ToolCallFragment, tool_calls_reason, tool_calls_str,
};
use crate::request::{
    ImagePart, WireMessage, assemble_messages, assembled_messages, base64_encode, base64_of,
    message_views,
};
use crate::text::{is_prefix_of, str_eq, str_starts_with};

verus! {

/// The token budget offered to chat models.
pub const OPENAI_MAX_TOKENS: i32 = 4096;

/// The model-id prefix of reasoning models, which take no system prompt, no
/// image parts, no tools and no sampling parameters.
pub open spec fn reasoning_prefix() -> Seq<char> {
    "o3-"@
}

/// Is this model id a reasoning model?
pub fn is_reasoning_model(model: &str) -> (r: bool)
    ensures
        r == is_prefix_of(reasoning_prefix(), model@),
{
    str_starts_with(model, "o3-")
}

/// The model id requests are sent to.
pub fn openai_model() -> (r: &'static str)
    ensures
        r@ == "o3-mini-2025-01-31"@,
{
    "o3-mini-2025-01-31"
}

/// The body of one outgoing OpenAI-compatible request, as far as the state
/// machine decides it. Serialization is the HTTP layer's concern.
pub struct OpenAiPayload {
    pub stream: bool,
    pub model: String,
    pub max_tokens: Option<i32>,
    pub messages: Vec<WireMessage>,
    pub user: Option<String>,
    pub tools_enabled: bool,
}

/// What a tool-call reassembly map holds: for each upstream event id, the
/// accumulated `<function-name>,<arguments>` command string.
pub uninterp spec fn call_entries(m: DashMap<String, String>) -> Map<Seq<char>, Seq<char>>;

/// Relies on dashmap::DashMap::new: a freshly created map has no entries.
#[verifier::external_body]
fn call_map_new() -> (r: DashMap<String, String>)
    ensures
        call_entries(r).dom() == Set::<Seq<char>>::empty(),
{
    DashMap::new()
}

/// Relies on dashmap::DashMap::remove: takes the key's entry out of the map
/// and returns the stored value.
#[verifier::external_body]
fn call_map_remove(m: &mut DashMap<String, String>, id: &str) -> (r: Option<String>)
    ensures
        call_entries(*final(m)) == call_entries(*old(m)).remove(id@),
        r is Some <==> call_entries(*old(m)).contains_key(id@),
        r matches Some(v) ==> v@ == call_entries(*old(m))[id@],
{
    m.remove(id).map(|kv| kv.1)
}

/// Relies on dashmap::DashMap::insert: afterwards the key maps to exactly
/// this value, other entries unchanged.
#[verifier::external_body]
fn call_map_insert(m: &mut DashMap<String, String>, id: String, cmd: String)
    ensures
        call_entries(*final(m)) == call_entries(*old(m)).insert(id@, cmd@),
{
    m.insert(id, cmd);
}

/// What appending one tool-call fragment does to the reassembly map: the
/// first fragment of an id records `name,arguments`; later fragments extend
/// the arguments.
pub open spec fn append_fragment_model(
    calls: Map<Seq<char>, Seq<char>>,
    id: Seq<char>,
    name: Seq<char>,
    args: Seq<char>,
) -> Map<Seq<char>, Seq<char>> {
    if calls.contains_key(id) {
        calls.insert(id, calls[id] + args)
    } else {
        calls.insert(id, name + seq![','] + args)
    }
}

/// The name carried by a fragment, with a missing name read as empty.
pub open spec fn fragment_name(f: ToolCallFragment) -> Seq<char> {
    match f.name {
        Some(n) => n@,
        None => Seq::<char>::empty(),
    }
}

/// How one event changes the reassembly map: only a tool-call fragment with
/// no finish reason writes into it; a `tool_calls` finish removes its entry.
pub open spec fn calls_after(ev: OpenAiEvent, pre: Map<Seq<char>, Seq<char>>) -> Map<
    Seq<char>,
    Seq<char>,
> {
    if ev.choices@.len() == 0 {
        pre
    } else {
        let c = ev.choices@[0];
        match c.finish_reason {
            Some(reason) => if reason@ == tool_calls_reason() {
                pre.remove(ev.id@)
            } else {
                pre
            },
            None => match c.delta.content {
                Some(_) => pre,
                None => match c.delta.tool_calls {
                    Some(tcs) => if tcs@.len() == 0 {
                        pre
                    } else {
                        append_fragment_model(
                            pre,
                            ev.id@,
                            fragment_name(tcs@[0]),
                            tcs@[0].arguments@,
                        )
                    },
                    None => pre,
                },
            },
        }
    }
}

/// The exact classification of one event against the reassembly map it
/// arrived at.
pub open spec fn process_post(
    ev: OpenAiEvent,
    pre: Map<Seq<char>, Seq<char>>,
    r: Result<MessageAction, ProcessError>,
) -> bool {
    if ev.choices@.len() == 0 {
        r matches Err(e) && e == ProcessError::EmptyChoices
    } else {
        let c = ev.choices@[0];
        match c.finish_reason {
            Some(reason) => if reason@ == tool_calls_reason() {
                if pre.contains_key(ev.id@) {
                    r matches Ok(MessageAction::SendFunc(cmd)) && cmd@ == pre[ev.id@]
                } else {
                    r matches Err(e) && e == ProcessError::MissingToolCall
                }
            } else {
                r matches Ok(a) && a is Stop
            },
            None => match c.delta.content {
                Some(b) => r matches Ok(MessageAction::SendBody(out)) && out@ == b@,
                None => r matches Ok(a) && a is NoAction,
            },
        }
    }
}

/// The OpenAI-compatible adapter's classification state: the tool-call
/// fragments reassembled so far, keyed by upstream event id.
pub struct OpenAI {
    function_calls: DashMap<String, String>,
}

impl OpenAI {
    /// The reassembled command string per upstream event id.
    pub closed spec fn calls(&self) -> Map<Seq<char>, Seq<char>> {
        call_entries(self.function_calls)
    }

    /// An adapter with nothing reassembled yet.
    pub fn new() -> (r: Self)
        ensures
            r.calls().dom() == Set::<Seq<char>>::empty(),
    {
        OpenAI { function_calls: call_map_new() }
    }

    /// Fold one run of tool-call fragments into the reassembly map: the
    /// first fragment names the function, later ones extend the arguments.
    /// An event without fragments changes nothing.
    pub fn append_fragment(&mut self, id: &str, fragments: &Vec<ToolCallFragment>)
        ensures
            final(self).calls() == if fragments@.len() == 0 {
                old(self).calls()
            } else {
                append_fragment_model(
                    old(self).calls(),
                    id@,
                    fragment_name(fragments@[0]),
                    fragments@[0].arguments@,
                )
            },
    {
        if fragments.len() == 0 {
            return;
        }
        let frag = &fragments[0];
        let arguments = &frag.arguments;
        match call_map_remove(&mut self.function_calls, id) {
            Some(existing) => {
                let joined = existing.concat(arguments.as_str());
                call_map_insert(&mut self.function_calls, id.to_owned(), joined);
                proof {
                    assert(self.calls() =~= append_fragment_model(
                        old(self).calls(),
                        id@,
                        fragment_name(fragments@[0]),
                        fragments@[0].arguments@,
                    ));
                }
            },
            None => {
                let name: String = match &frag.name {
                    Some(n) => n.clone(),
                    None => String::new(),
                };
                let comma = ",";
                proof {
                    reveal_strlit(",");
                    assert(comma@ =~= seq![',']);
                }
                let cmd = name.concat(comma).concat(arguments.as_str());
                call_map_insert(&mut self.function_calls, id.to_owned(), cmd);
                proof {
                    assert((fragment_name(fragments@[0]) + seq![',']) + fragments@[0].arguments@
                        =~= fragment_name(fragments@[0]) + seq![','] + fragments@[0].arguments@);
                    assert(self.calls() =~= append_fragment_model(
                        old(self).calls(),
                        id@,
                        fragment_name(fragments@[0]),
                        fragments@[0].arguments@,
                    ));
                }
            },
        }
    }

    /// Build the body of one upstream request: the system prompt (unless the
    /// model is a reasoning model), the decoded history, and the current
    /// user turn, which carries the image when the model takes one. Tools
    /// are offered only when the plugin is enabled and the model takes them.
    pub fn create_request(
        &self,
        uuid: &str,
        msg: &str,
        image: Option<&Vec<u8>>,
        context: &str,
        use_plugin: bool,
        model: &str,
    ) -> (r: OpenAiPayload)
        ensures
            r.stream == true,
            r.model@ == model@,
            r.user matches Some(u) && u@ == uuid@,
            ({
                let reasoning = is_prefix_of(reasoning_prefix(), model@);
                &&& r.max_tokens == if reasoning {
                    Option::<i32>::None
                } else {
                    Option::<i32>::Some(OPENAI_MAX_TOKENS)
                }
                &&& r.tools_enabled == (use_plugin && !reasoning)
                &&& message_views(r.messages@) =~~= assembled_messages(
                    !reasoning,
                    crate::codec::decode_pairs(context@),
                    msg@,
                )
                &&& r.messages@.len() >= 1
                &&& match image {
                    Some(bytes) => if reasoning {
                        r.messages@.last().image is None
                    } else {
                        r.messages@.last().image matches Some(p) && p.media_type@ == "image/png"@
                            && p.data@ == base64_of(bytes@)
                    },
                    None => r.messages@.last().image is None,
                }
            }),
    {
        let reasoning = is_reasoning_model(model);
        let part: Option<ImagePart> = if reasoning {
            None
        } else {
            match image {
                Some(bytes) => Some(
                    ImagePart {
                        media_type: String::from_str("image/png"),
                        data: base64_encode(bytes),
                    },
                ),
                None => None,
            }
        };
        let messages = assemble_messages(!reasoning, context, msg, part);
        OpenAiPayload {
            stream: true,
            model: model.to_owned(),
            max_tokens: if reasoning {
                None
            } else {
                Some(OPENAI_MAX_TOKENS)
            },
            messages,
            user: Some(uuid.to_owned()),
            tools_enabled: use_plugin && !reasoning,
        }
    }

    /// Classify one upstream event into its semantic action, updating the
    /// tool-call reassembly state. Only the first choice is consulted; an
    /// event without choices is rejected.
    pub fn process(&mut self, event: &OpenAiEvent) -> (r: Result<MessageAction, ProcessError>)
        ensures
            process_post(*event, old(self).calls(), r),
            final(self).calls() == calls_after(*event, old(self).calls()),
    {
        if event.choices.len() == 0 {
            return Err(ProcessError::EmptyChoices);
        }
        let choice = &event.choices[0];
        match &choice.finish_reason {
            Some(reason) => {
                if str_eq(reason.as_str(), tool_calls_str()) {
                    match call_map_remove(&mut self.function_calls, event.id.as_str()) {
                        Some(cmd) => Ok(MessageAction::SendFunc(cmd)),
                        None => {
                            proof {
                                assert(old(self).calls().remove(event.id@) =~= old(self).calls());
                            }
                            Err(ProcessError::MissingToolCall)
                        },
                    }
                } else {
                    Ok(MessageAction::Stop)
                }
            },
            None => {
                match &choice.delta.content {
                    Some(body) => Ok(MessageAction::SendBody(body.clone())),
                    None => {
                        match &choice.delta.tool_calls {
                            Some(fragments) => {
                                let id = event.id.clone();
                                self.append_fragment(id.as_str(), fragments);
                                Ok(MessageAction::NoAction)
                            },
                            None => Ok(MessageAction::NoAction),
                        }
                    },
                }
            },
        }
    }
}

} // verus!
