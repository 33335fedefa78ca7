//! Turns and their in-band role tagging. A completed turn is
//! `user:<text>[[stop]]`, `tool:<text>[[stop]]`, or an untagged assistant
//! turn `<text>[[stop]]`. Decoding a composed history splits it on the stop
//! marker, discards empty pieces, and classifies each piece by its prefix.

use vstd::prelude::*;

use crate::marker::{
    bodies, concat_turns, lemma_split_concat_wf, split_on_stop, stop_at, stop_free, stop_marker,
    wf_turn,
};
use crate::text::{is_prefix_of, str_starts_with, str_suffix_from};

verus! {

/// Who spoke a turn.
#[derive(Clone, Copy, Debug, PartialEq, Eq, Structural)]
pub enum Role {
    User,
    Tool,
    Assistant,
}

/// One decoded turn of the conversation history.
pub struct ChatTurn {
    pub role: Role,
    pub content: String,
}

/// The in-band tag of a user turn.
pub open spec fn user_prefix() -> Seq<char> {
    seq!['u', 's', 'e', 'r', ':']
}

/// The in-band tag of a tool turn.
pub open spec fn tool_prefix() -> Seq<char> {
    seq!['t', 'o', 'o', 'l', ':']
}

/// The user tag, as a string slice.
pub fn user_prefix_str() -> (r: &'static str)
    ensures
        r@ == user_prefix(),
{
    let s = "user:";
    proof {
        reveal_strlit("user:");
        assert(s@ =~= user_prefix());
    }
    s
}

/// The tool tag, as a string slice.
pub fn tool_prefix_str() -> (r: &'static str)
    ensures
        r@ == tool_prefix(),
{
    let s = "tool:";
    proof {
        reveal_strlit("tool:");
        assert(s@ =~= tool_prefix());
    }
    s
}

/// The role a piece of the composed history decodes to.
pub open spec fn role_of(p: Seq<char>) -> Role {
    if is_prefix_of(user_prefix(), p) {
        Role::User
    } else if is_prefix_of(tool_prefix(), p) {
        Role::Tool
    } else {
        Role::Assistant
    }
}

/// The content of a piece: the piece with its role tag stripped.
pub open spec fn content_of(p: Seq<char>) -> Seq<char> {
    if is_prefix_of(user_prefix(), p) || is_prefix_of(tool_prefix(), p) {
        p.skip(5)
    } else {
        p
    }
}

/// The tag written in front of a turn of the given role.
pub open spec fn role_prefix(r: Role) -> Seq<char> {
    match r {
        Role::User => user_prefix(),
        Role::Tool => tool_prefix(),
        Role::Assistant => Seq::<char>::empty(),
    }
}

/// The (role, content) pairs of a piece list: empty pieces are dropped, the
/// rest classified by prefix.
pub open spec fn pairs_of_pieces(ps: Seq<Seq<char>>) -> Seq<(Role, Seq<char>)>
    decreases ps.len(),
{
    if ps.len() == 0 {
        Seq::<(Role, Seq<char>)>::empty()
    } else {
        let rest = pairs_of_pieces(ps.skip(1));
        if ps[0].len() == 0 {
            rest
        } else {
            seq![(role_of(ps[0]), content_of(ps[0]))] + rest
        }
    }
}

/// What a composed history means: its decoded (role, content) pairs.
pub open spec fn decode_pairs(s: Seq<char>) -> Seq<(Role, Seq<char>)> {
    pairs_of_pieces(split_on_stop(s))
}

/// Appending one piece extends the decoded pairs by at most one pair.
pub proof fn lemma_pairs_snoc(ps: Seq<Seq<char>>, p: Seq<char>)
    ensures
        pairs_of_pieces(ps.push(p)) =~~= pairs_of_pieces(ps) + (if p.len() == 0 {
            Seq::<(Role, Seq<char>)>::empty()
        } else {
            seq![(role_of(p), content_of(p))]
        }),
    decreases ps.len(),
{
    if ps.len() == 0 {
        assert(ps.push(p).skip(1) =~~= Seq::<Seq<char>>::empty());
        assert(pairs_of_pieces(Seq::<Seq<char>>::empty()) =~~= Seq::<(Role, Seq<char>)>::empty());
        assert(pairs_of_pieces(ps) =~~= Seq::<(Role, Seq<char>)>::empty());
        assert(ps.push(p)[0] == p);
    } else {
        lemma_pairs_snoc(ps.skip(1), p);
        assert(ps.push(p).skip(1) =~~= ps.skip(1).push(p));
        assert(ps.push(p)[0] == ps[0]);
        assert(pairs_of_pieces(ps.push(p).skip(1)) == pairs_of_pieces(ps.skip(1).push(p)));
    }
}

/// Exactly one of the three role classes applies to any piece: the user tag,
/// the tool tag, or neither of the two (an assistant turn).
pub proof fn lemma_role_classes_exclusive(p: Seq<char>)
    ensures
        !(is_prefix_of(user_prefix(), p) && is_prefix_of(tool_prefix(), p)),
        (role_of(p) == Role::User) <==> is_prefix_of(user_prefix(), p),
        (role_of(p) == Role::Tool) <==> (is_prefix_of(tool_prefix(), p) && !is_prefix_of(
            user_prefix(),
            p,
        )),
        (role_of(p) == Role::Assistant) <==> (!is_prefix_of(user_prefix(), p) && !is_prefix_of(
            tool_prefix(),
            p,
        )),
{
    if is_prefix_of(user_prefix(), p) && is_prefix_of(tool_prefix(), p) {
        assert(p.subrange(0, 5)[0] == 'u');
        assert(p.subrange(0, 5)[0] == 't');
    }
}

/// A role tag never contains the marker's opening bracket, so tagging a
/// stop-free text keeps it stop-free.
proof fn lemma_tag_stop_free(prefix: Seq<char>, text: Seq<char>)
    requires
        stop_free(text),
        forall|i: int| 0 <= i < prefix.len() ==> prefix[i] != '[',
    ensures
        stop_free(prefix + text),
{
    let s = prefix + text;
    assert forall|i: int| !stop_at(s, i) by {
        if stop_at(s, i) {
            if i < prefix.len() {
                assert(s.subrange(i, i + 8)[0] == stop_marker()[0]);
                assert(s[i] == '[');
                assert(s[i] == prefix[i]);
            } else {
                assert(s.subrange(i, i + 8) =~= text.subrange(
                    i - prefix.len(),
                    i - prefix.len() + 8,
                ));
                assert(stop_at(text, i - prefix.len()));
            }
        }
    }
}

/// A pair that encodes faithfully: its text holds no stop marker, and an
/// untagged assistant turn is nonempty and not mistakable for a tagged one.
pub open spec fn codable_pair(pr: (Role, Seq<char>)) -> bool {
    &&& stop_free(pr.1)
    &&& pr.0 == Role::Assistant ==> pr.1.len() > 0 && !is_prefix_of(user_prefix(), pr.1)
        && !is_prefix_of(tool_prefix(), pr.1)
}

/// One turn written out: role tag, text, stop marker.
pub open spec fn encode_pair(pr: (Role, Seq<char>)) -> Seq<char> {
    role_prefix(pr.0) + pr.1 + stop_marker()
}

/// A whole context written out as consecutive turns.
pub open spec fn encode_context(prs: Seq<(Role, Seq<char>)>) -> Seq<char> {
    concat_turns(prs.map_values(|pr: (Role, Seq<char>)| encode_pair(pr)))
}

proof fn lemma_pairs_of_tagged(prs: Seq<(Role, Seq<char>)>)
    requires
        forall|i: int| 0 <= i < prs.len() ==> codable_pair(#[trigger] prs[i]),
    ensures
        pairs_of_pieces(
            prs.map_values(|pr: (Role, Seq<char>)| role_prefix(pr.0) + pr.1) + seq![
                Seq::<char>::empty(),
            ],
        ) =~~= prs,
    decreases prs.len(),
{
    let ps = prs.map_values(|pr: (Role, Seq<char>)| role_prefix(pr.0) + pr.1) + seq![
        Seq::<char>::empty(),
    ];
    if prs.len() == 0 {
        assert(ps[0].len() == 0);
        assert(ps.skip(1) =~~= Seq::<Seq<char>>::empty());
        assert(pairs_of_pieces(Seq::<Seq<char>>::empty()) =~~= Seq::<(Role, Seq<char>)>::empty());
    } else {
        let head = role_prefix(prs[0].0) + prs[0].1;
        assert(ps[0] == head);
        assert(head.len() > 0);
        match prs[0].0 {
            Role::User => {
                assert(head.subrange(0, 5) =~= user_prefix());
                assert(content_of(head) =~= prs[0].1);
            },
            Role::Tool => {
                assert(!is_prefix_of(user_prefix(), head)) by {
                    if is_prefix_of(user_prefix(), head) {
                        assert(head.subrange(0, 5)[0] == 'u');
                        assert(head[0] == 't');
                    }
                }
                assert(head.subrange(0, 5) =~= tool_prefix());
                assert(content_of(head) =~= prs[0].1);
            },
            Role::Assistant => {
                assert(head =~= prs[0].1);
            },
        }
        assert(role_of(head) == prs[0].0 && content_of(head) == prs[0].1);
        assert(ps.skip(1) =~~= prs.skip(1).map_values(
            |pr: (Role, Seq<char>)| role_prefix(pr.0) + pr.1,
        ) + seq![Seq::<char>::empty()]);
        assert(forall|i: int| 0 <= i < prs.skip(1).len() ==> codable_pair(#[trigger] prs.skip(1)[i]));
        lemma_pairs_of_tagged(prs.skip(1));
        assert(pairs_of_pieces(ps) =~~= seq![(prs[0].0, prs[0].1)] + prs.skip(1));
        assert(seq![(prs[0].0, prs[0].1)] + prs.skip(1) =~~= prs);
    }
}

/// The round-trip law: a context built by writing out role-tagged turns
/// decodes back to exactly the original (role, text) pairs.
pub proof fn lemma_round_trip(prs: Seq<(Role, Seq<char>)>)
    requires
        forall|i: int| 0 <= i < prs.len() ==> codable_pair(#[trigger] prs[i]),
    ensures
        decode_pairs(encode_context(prs)) =~~= prs,
{
    let ets = prs.map_values(|pr: (Role, Seq<char>)| encode_pair(pr));
    let tagged = prs.map_values(|pr: (Role, Seq<char>)| role_prefix(pr.0) + pr.1);
    assert forall|i: int| 0 <= i < ets.len() implies wf_turn(#[trigger] ets[i]) by {
        let pr = prs[i];
        assert(codable_pair(pr));
        assert(forall|j: int|
            0 <= j < role_prefix(pr.0).len() ==> #[trigger] role_prefix(pr.0)[j] != '[');
        lemma_tag_stop_free(role_prefix(pr.0), pr.1);
        assert(ets[i] =~= (role_prefix(pr.0) + pr.1) + stop_marker());
        assert(crate::marker::turn_body(ets[i]) =~= role_prefix(pr.0) + pr.1);
        assert(ets[i].subrange(ets[i].len() - 8, ets[i].len() as int) =~= stop_marker());
    }
    lemma_split_concat_wf(ets, Seq::<char>::empty());
    assert(concat_turns(ets) + Seq::<char>::empty() =~= concat_turns(ets));
    assert(split_on_stop(Seq::<char>::empty()) =~~= seq![Seq::<char>::empty()]);
    assert(bodies(ets) =~~= tagged) by {
        assert forall|i: int| 0 <= i < ets.len() implies bodies(ets)[i] =~= tagged[i] by {
            let pr = prs[i];
            assert(ets[i] =~= (role_prefix(pr.0) + pr.1) + stop_marker());
            assert(crate::marker::turn_body(ets[i]) =~= role_prefix(pr.0) + pr.1);
        }
    }
    lemma_pairs_of_tagged(prs);
    assert(split_on_stop(encode_context(prs)) =~~= tagged + seq![Seq::<char>::empty()]);
}

/// Write one completed user turn: tag, message, stop marker.
pub fn encode_user_turn(message: &str) -> (r: String)
    ensures
        r@ == user_prefix() + message@ + stop_marker(),
{
    let tagged = String::from_str(user_prefix_str()).concat(message);
    let r = tagged.concat(crate::marker::stop_str());
    proof {
        assert((user_prefix() + message@) + stop_marker() =~= user_prefix() + message@
            + stop_marker());
    }
    r
}

/// Is this message a synthetic tool follow-up rather than a user message?
pub fn is_tool_followup(message: &str) -> (r: bool)
    ensures
        r == is_prefix_of(tool_prefix(), message@),
{
    str_starts_with(message, tool_prefix_str())
}

/// Decode a composed history into its turns, oldest first.
pub fn decode_history(context: &str) -> (r: Vec<ChatTurn>)
    ensures
        r@.map_values(|t: ChatTurn| (t.role, t.content@)) =~~= decode_pairs(context@),
{
    let pieces = split_history(context);
    let mut turns: Vec<ChatTurn> = Vec::new();
    let mut j: usize = 0;
    let ghost piece_views = pieces@.map_values(|s: String| s@);
    while j < pieces.len()
        invariant
            j <= pieces.len(),
            piece_views == pieces@.map_values(|s: String| s@),
            turns@.map_values(|t: ChatTurn| (t.role, t.content@)) =~~= pairs_of_pieces(
                piece_views.take(j as int),
            ),
        decreases pieces.len() - j,
    {
        let piece = &pieces[j];
        let ps = piece.as_str();
        if !ps.is_empty() {
            if str_starts_with(ps, user_prefix_str()) {
                let content = str_suffix_from(ps, 5);
                turns.push(ChatTurn { role: Role::User, content });
            } else if str_starts_with(ps, tool_prefix_str()) {
                let content = str_suffix_from(ps, 5);
                turns.push(ChatTurn { role: Role::Tool, content });
            } else {
                turns.push(ChatTurn { role: Role::Assistant, content: ps.to_owned() });
            }
        }
        proof {
            assert(piece_views.take(j + 1) =~~= piece_views.take(j as int).push(
                piece_views[j as int],
            ));
            lemma_pairs_snoc(piece_views.take(j as int), piece_views[j as int]);
            if piece_views[j as int].len() > 0 {
                assert(content_of(piece_views[j as int]) == if is_prefix_of(
                    user_prefix(),
                    piece_views[j as int],
                ) || is_prefix_of(tool_prefix(), piece_views[j as int]) {
                    piece_views[j as int].skip(5)
                } else {
                    piece_views[j as int]
                });
            }
        }
        j = j + 1;
    }
    proof {
        assert(piece_views.take(pieces@.len() as int) =~~= piece_views);
    }
    turns
}

/// Split a composed history on the stop marker, keeping empty pieces.
pub fn split_history(context: &str) -> (r: Vec<String>)
    ensures
        r@.map_values(|s: String| s@) =~~= split_on_stop(context@),
{
    let n = context.unicode_len();
    let stop = crate::marker::stop_str();
    let mut pieces: Vec<String> = Vec::new();
    let mut start: usize = 0;
    proof {
        assert(context@.skip(0) =~= context@);
        assert(pieces@.map_values(|s: String| s@) =~~= Seq::<Seq<char>>::empty());
    }
    if n >= 8 {
        let mut i: usize = 0;
        while i <= n - 8
            invariant
                n == context@.len(),
                8 <= n,
                stop@ == stop_marker(),
                start <= i,
                i <= n,
                forall|j: int| start <= j < i ==> !stop_at(context@, j),
                split_on_stop(context@) =~~= pieces@.map_values(|s: String| s@) + split_on_stop(
                    context@.skip(start as int),
                ),
            decreases n - i,
        {
            let cand = context.substring_char(i, i + 8);
            if crate::text::str_eq(cand, stop) {
                let piece = context.substring_char(start, i);
                let ghost s = context@;
                let ghost p = s.subrange(start as int, i as int);
                proof {
                    assert(stop_at(s, i as int)) by {
                        assert(s.subrange(i as int, i + 8) == cand@);
                    }
                    assert(stop_free(p)) by {
                        assert forall|j: int| !stop_at(p, j) by {
                            if stop_at(p, j) {
                                crate::marker::lemma_stop_at_in_subrange(
                                    s,
                                    start as int,
                                    i as int,
                                    j,
                                );
                            }
                        }
                    }
                    assert(s.skip(start as int) =~= p + stop_marker() + s.skip(i + 8));
                    crate::marker::lemma_split_peel(p, s.skip(i + 8));
                }
                pieces.push(piece.to_owned());
                proof {
                    assert(pieces@.map_values(|x: String| x@) =~~= pieces@.map_values(
                        |x: String| x@,
                    ).take(pieces@.len() - 1).push(p));
                }
                i = i + 8;
                start = i;
            } else {
                proof {
                    assert(!stop_at(context@, i as int)) by {
                        assert(context@.subrange(i as int, i + 8) == cand@);
                    }
                }
                i = i + 1;
            }
        }
    }
    let tail = context.substring_char(start, n);
    pieces.push(tail.to_owned());
    proof {
        let s = context@;
        assert(stop_free(s.skip(start as int))) by {
            assert forall|j: int| !stop_at(s.skip(start as int), j) by {
                if stop_at(s.skip(start as int), j) {
                    assert(s.skip(start as int) =~= s.subrange(start as int, s.len() as int));
                    crate::marker::lemma_stop_at_in_subrange(s, start as int, s.len() as int, j);
                    assert(stop_at(s, start + j));
                }
            }
        }
        crate::marker::lemma_split_stop_free(s.skip(start as int));
        assert(pieces@.map_values(|x: String| x@) =~~= pieces@.map_values(|x: String| x@).take(
            pieces@.len() - 1,
        ).push(s.skip(start as int)));
    }
    pieces
}

} // verus!
