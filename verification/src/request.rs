//! The shared shape of an outgoing upstream request body: a list of
//! role-tagged messages, assembled from the system prompt, the decoded
//! conversation history, and the current user turn with its optional image.

use vstd::prelude::*;

use base64::Engine;

use crate::codec::{ChatTurn, Role};

verus! {

/// The role a message carries on the wire.
#[derive(Clone, Copy, Debug, PartialEq, Eq, Structural)]
pub enum WireRole {
    System,
    User,
    Assistant,
    Tool,
}

/// The wire role a decoded history turn maps to.
pub open spec fn wire_role_of(r: Role) -> WireRole {
    match r {
        Role::User => WireRole::User,
        Role::Tool => WireRole::Tool,
        Role::Assistant => WireRole::Assistant,
    }
}

/// An image attached to a user message: its media type and base64 data.
pub struct ImagePart {
    pub media_type: String,
    pub data: String,
}

/// One message of an outgoing request body.
pub struct WireMessage {
    pub role: WireRole,
    pub content: String,
    pub image: Option<ImagePart>,
}

/// The wire name of a role.
pub open spec fn role_name(r: WireRole) -> Seq<char> {
    match r {
        WireRole::System => "system"@,
        WireRole::User => "user"@,
        WireRole::Assistant => "assistant"@,
        WireRole::Tool => "tool"@,
    }
}

/// The wire name of a role, as a string slice.
pub fn role_str(r: WireRole) -> (s: &'static str)
    ensures
        s@ == role_name(r),
{
    match r {
        WireRole::System => "system",
        WireRole::User => "user",
        WireRole::Assistant => "assistant",
        WireRole::Tool => "tool",
    }
}

/// The system prompt handed to chat models.
pub open spec fn system_prompt_text() -> Seq<char> {
    "#1 You are playing two roles:\na. professional Coding AI assistant can answer technicial questions based on context given.\nAnalysis questions step by step and being very clear & precise on the problems and solutions.\nYou need to make sure all the code MUST wrapped inside\n```(code-language)\n(code)\n```\nb. pro stock analyzer can parse the data from tools and provide suggestions. The strategy is to\ncompare the data with concentration(1-60 days, present in percentage)/foreign/foreign10/trust/trust10/dealer, the more positive\nmeans the stronger the stock may perform. when response, don't show the strategy.\n#2 Did the answer meet the assignment?\n#3 Review your answer and find problems within\n#4 Based on the problems you found, improve your answer\n"@
}

/// The system prompt, as a string slice.
pub fn system_prompt_str() -> (s: &'static str)
    ensures
        s@ == system_prompt_text(),
{
    "#1 You are playing two roles:\na. professional Coding AI assistant can answer technicial questions based on context given.\nAnalysis questions step by step and being very clear & precise on the problems and solutions.\nYou need to make sure all the code MUST wrapped inside\n```(code-language)\n(code)\n```\nb. pro stock analyzer can parse the data from tools and provide suggestions. The strategy is to\ncompare the data with concentration(1-60 days, present in percentage)/foreign/foreign10/trust/trust10/dealer, the more positive\nmeans the stronger the stock may perform. when response, don't show the strategy.\n#2 Did the answer meet the assignment?\n#3 Review your answer and find problems within\n#4 Based on the problems you found, improve your answer\n"
}

/// What base64 encoding produces for given bytes: a function of the bytes
/// alone.
pub uninterp spec fn base64_of(bytes: Seq<u8>) -> Seq<char>;

/// Relies on base64's STANDARD engine: the encoding depends on the input
/// bytes alone, and an empty input encodes to an empty string.
#[verifier::external_body]
pub fn base64_encode(bytes: &Vec<u8>) -> (r: String)
    ensures
        r@ == base64_of(bytes@),
        bytes@.len() == 0 ==> r@.len() == 0,
{
    base64::engine::general_purpose::STANDARD.encode(bytes)
}

/// Case-insensitive equality against an ASCII-lowercase reference character.
pub open spec fn ci_char_eq(a: char, b: char) -> bool {
    a == b || (97 <= b as u32 <= 122 && a as u32 + 32 == b as u32)
}

/// `s` ends with `suf`, comparing case-insensitively against the ASCII
/// lowercase `suf`.
pub open spec fn has_suffix_ci(s: Seq<char>, suf: Seq<char>) -> bool {
    suf.len() <= s.len() && forall|j: int|
        0 <= j < suf.len() ==> ci_char_eq(s[s.len() - suf.len() + j], #[trigger] suf[j])
}

/// Does `s` end with `suf`, ignoring ASCII case? `suf` is expected in
/// lowercase.
pub fn str_has_suffix_ci(s: &str, suf: &str) -> (r: bool)
    ensures
        r == has_suffix_ci(s@, suf@),
{
    let slen = s.unicode_len();
    let flen = suf.unicode_len();
    if flen > slen {
        return false;
    }
    let mut j: usize = 0;
    while j < flen
        invariant
            0 <= j <= flen,
            flen <= slen,
            slen == s@.len(),
            flen == suf@.len(),
            forall|k: int| 0 <= k < j ==> ci_char_eq(s@[slen - flen + k], #[trigger] suf@[k]),
        decreases flen - j,
    {
        let a = s.get_char(slen - flen + j);
        let b = suf.get_char(j);
        let au = a as u32;
        let bu = b as u32;
        if !(a == b || (97 <= bu && bu <= 122 && au + 32 == bu)) {
            return false;
        }
        j = j + 1;
    }
    true
}

/// The media type an image URL's suffix announces; unknown suffixes default
/// to PNG.
pub open spec fn media_type_of(url: Seq<char>) -> Seq<char> {
    if has_suffix_ci(url, ".png"@) {
        "image/png"@
    } else if has_suffix_ci(url, ".jpg"@) || has_suffix_ci(url, ".jpeg"@) {
        "image/jpeg"@
    } else if has_suffix_ci(url, ".gif"@) {
        "image/gif"@
    } else if has_suffix_ci(url, ".webp"@) {
        "image/webp"@
    } else {
        "image/png"@
    }
}

/// Determine the media type from the image URL's suffix.
pub fn get_media_type(url: &str) -> (r: &'static str)
    ensures
        r@ == media_type_of(url@),
{
    if str_has_suffix_ci(url, ".png") {
        "image/png"
    } else if str_has_suffix_ci(url, ".jpg") || str_has_suffix_ci(url, ".jpeg") {
        "image/jpeg"
    } else if str_has_suffix_ci(url, ".gif") {
        "image/gif"
    } else if str_has_suffix_ci(url, ".webp") {
        "image/webp"
    } else {
        "image/png"
    }
}

/// The (role, content) pairs a message list carries.
pub open spec fn message_views(ms: Seq<WireMessage>) -> Seq<(WireRole, Seq<char>)> {
    ms.map_values(|m: WireMessage| (m.role, m.content@))
}

/// The message list every request body opens with: the system prompt when
/// one is wanted, then the decoded history, then the current user turn.
pub open spec fn assembled_messages(
    with_system: bool,
    history: Seq<(Role, Seq<char>)>,
    msg: Seq<char>,
) -> Seq<(WireRole, Seq<char>)> {
    (if with_system {
        seq![(WireRole::System, system_prompt_text())]
    } else {
        Seq::<(WireRole, Seq<char>)>::empty()
    }) + history.map_values(|p: (Role, Seq<char>)| (wire_role_of(p.0), p.1)) + seq![
        (WireRole::User, msg),
    ]
}

/// Assemble the message list of an outgoing request: optionally the system
/// prompt, then the history decoded from the composed context, then the
/// current user turn carrying the optional image.
pub fn assemble_messages(
    with_system: bool,
    context: &str,
    msg: &str,
    image: Option<ImagePart>,
) -> (r: Vec<WireMessage>)
    ensures
        message_views(r@) =~~= assembled_messages(
            with_system,
            crate::codec::decode_pairs(context@),
            msg@,
        ),
        r@.len() >= 1,
        match image {
            Some(part) => r@.last().image matches Some(p) && p.media_type@ == part.media_type@
                && p.data@ == part.data@,
            None => r@.last().image is None,
        },
        forall|i: int| 0 <= i < r@.len() - 1 ==> (#[trigger] r@[i]).image is None,
{
    let mut messages: Vec<WireMessage> = Vec::new();
    if with_system {
        let prompt = system_prompt_str();
        messages.push(
            WireMessage { role: WireRole::System, content: prompt.to_owned(), image: None },
        );
    }
    let history: Vec<ChatTurn> = crate::codec::decode_history(context);
    let ghost hpairs = crate::codec::decode_pairs(context@);
    let mut i: usize = 0;
    while i < history.len()
        invariant
            0 <= i <= history@.len(),
            hpairs == crate::codec::decode_pairs(context@),
            history@.map_values(|t: ChatTurn| (t.role, t.content@)) =~~= hpairs,
            message_views(messages@) =~~= (if with_system {
                seq![(WireRole::System, system_prompt_text())]
            } else {
                Seq::<(WireRole, Seq<char>)>::empty()
            }) + hpairs.take(i as int).map_values(
                |p: (Role, Seq<char>)| (wire_role_of(p.0), p.1),
            ),
            forall|k: int| 0 <= k < messages@.len() ==> (#[trigger] messages@[k]).image is None,
        decreases history@.len() - i,
    {
        let turn = &history[i];
        let role = match turn.role {
            Role::User => WireRole::User,
            Role::Tool => WireRole::Tool,
            Role::Assistant => WireRole::Assistant,
        };
        let ghost pre_msgs = messages@;
        proof {
            assert(history@.map_values(|t: ChatTurn| (t.role, t.content@))[i as int] == hpairs[i
                as int]);
            assert((history@[i as int].role, history@[i as int].content@) == hpairs[i as int]);
            assert(role == wire_role_of(hpairs[i as int].0));
        }
        messages.push(WireMessage { role, content: turn.content.clone(), image: None });
        proof {
            assert(message_views(messages@) =~~= message_views(pre_msgs).push(
                (role, hpairs[i as int].1),
            ));
            assert(hpairs.take(i + 1) =~~= hpairs.take(i as int).push(hpairs[i as int]));
            assert(hpairs.take(i + 1).map_values(|p: (Role, Seq<char>)| (wire_role_of(p.0), p.1))
                =~~= hpairs.take(i as int).map_values(
                |p: (Role, Seq<char>)| (wire_role_of(p.0), p.1),
            ).push((wire_role_of(hpairs[i as int].0), hpairs[i as int].1)));
        }
        i = i + 1;
    }
    proof {
        assert(hpairs.take(hpairs.len() as int) =~~= hpairs);
    }
    messages.push(WireMessage { role: WireRole::User, content: msg.to_owned(), image });
    messages
}

} // verus!
