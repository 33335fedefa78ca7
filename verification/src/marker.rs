//! The stop marker `[[stop]]` that terminates every completed turn, and the
//! theory of splitting a composed history on that marker.

use vstd::prelude::*;

verus! {

/// The turn-terminator marker, as a sequence of characters.
pub open spec fn stop_marker() -> Seq<char> {
    seq!['[', '[', 's', 't', 'o', 'p', ']', ']']
}

/// The marker, as a string slice.
pub fn stop_str() -> (r: &'static str)
    ensures
        r@ == stop_marker(),
{
    let s = "[[stop]]";
    proof {
        reveal_strlit("[[stop]]");
        assert(s@ =~= stop_marker());
    }
    s
}

/// The stop marker occurs in `s` at position `i`.
pub open spec fn stop_at(s: Seq<char>, i: int) -> bool {
    0 <= i && i + 8 <= s.len() && s.subrange(i, i + 8) == stop_marker()
}

/// The stop marker occurs nowhere in `s`.
pub open spec fn stop_free(s: Seq<char>) -> bool {
    forall|i: int| !stop_at(s, i)
}

/// `s` ends with the stop marker: the turn it closes is complete.
pub open spec fn is_complete(s: Seq<char>) -> bool {
    s.len() >= 8 && stop_at(s, s.len() - 8)
}

/// A whole well-formed turn: a stop-free body followed by one stop marker.
pub open spec fn wf_turn(s: Seq<char>) -> bool {
    is_complete(s) && stop_free(s.subrange(0, s.len() - 8))
}

/// The body of a complete turn: everything before the final stop marker.
pub open spec fn turn_body(s: Seq<char>) -> Seq<char> {
    s.subrange(0, s.len() - 8)
}

/// `s` does not begin with a proper (nonempty, partial) suffix of the stop
/// marker. Text with this property can never complete a marker started by
/// whatever precedes it.
pub open spec fn no_marker_suffix_start(s: Seq<char>) -> bool {
    forall|k: int|
        1 <= k <= 7 ==> !(k <= s.len() && s.subrange(0, k) == stop_marker().subrange(8 - k, 8))
}

/// A delta that the history ring digests cleanly: it never begins with a
/// partial stop marker, and it is either marker-free or a whole turn.
pub open spec fn clean_delta(s: Seq<char>) -> bool {
    no_marker_suffix_start(s) && (stop_free(s) || wf_turn(s))
}

/// The pieces of `s` between occurrences of the stop marker, scanned left to
/// right. There is always at least one piece; a trailing marker contributes a
/// final empty piece.
pub open spec fn split_on_stop(s: Seq<char>) -> Seq<Seq<char>>
    decreases s.len(),
{
    if stop_at(s, 0) {
        seq![Seq::<char>::empty()] + split_on_stop(s.skip(8))
    } else if s.len() > 0 {
        let rest = split_on_stop(s.skip(1));
        seq![seq![s[0]] + rest[0]] + rest.skip(1)
    } else {
        seq![Seq::<char>::empty()]
    }
}

/// The stop marker has no border: no proper prefix of it is also a suffix.
pub proof fn lemma_marker_no_border(k: int)
    requires
        1 <= k <= 7,
    ensures
        stop_marker().subrange(0, k) != stop_marker().subrange(8 - k, 8),
{
    let m = stop_marker();
    if m.subrange(0, k) == m.subrange(8 - k, 8) {
        if k == 7 {
            assert(m.subrange(0, 7)[1] == m.subrange(1, 8)[1]);
            assert(false);
        } else {
            assert(m.subrange(0, k)[0] == m.subrange(8 - k, 8)[0]);
            assert(false);
        }
    }
}

/// Splitting always yields at least one piece.
pub proof fn lemma_split_len(s: Seq<char>)
    ensures
        split_on_stop(s).len() >= 1,
    decreases s.len(),
{
    if stop_at(s, 0) {
    } else if s.len() > 0 {
        lemma_split_len(s.skip(1));
    }
}

/// An occurrence of the marker within a subrange is an occurrence in the
/// whole.
pub proof fn lemma_stop_at_in_subrange(s: Seq<char>, lo: int, hi: int, i: int)
    requires
        0 <= lo <= hi <= s.len(),
        stop_at(s.subrange(lo, hi), i),
    ensures
        stop_at(s, lo + i),
{
    assert(s.subrange(lo, hi).subrange(i, i + 8) =~= s.subrange(lo + i, lo + i + 8));
}

/// A marker occurrence at the very start of `p + stop_marker() + rest` with
/// `p` nonempty and stop-free is impossible.
#[verifier::rlimit(100)]
proof fn lemma_no_stop_at_zero(p: Seq<char>, rest: Seq<char>)
    requires
        stop_free(p),
        p.len() > 0,
    ensures
        !stop_at(p + stop_marker() + rest, 0),
{
    let s = p + stop_marker() + rest;
    if stop_at(s, 0) {
        if p.len() >= 8 {
            assert(s.subrange(0, 8) =~= p.subrange(0, 8));
            assert(stop_at(p, 0));
        } else {
            let k = 8 - p.len();
            // The marker would begin with p and close with its own first
            // k characters, giving the marker a border of length k.
            let m = stop_marker();
            assert forall|j: int| 0 <= j < k implies m.subrange(p.len() as int, 8)[j]
                == m.subrange(0, k)[j] by {
                assert(m.subrange(p.len() as int, 8)[j] == m[p.len() + j]);
                assert(m[p.len() + j] == s.subrange(0, 8)[p.len() + j]);
                assert(s[p.len() + j] == m[j]);
            }
            assert(stop_marker().subrange(p.len() as int, 8) =~= stop_marker().subrange(0, k));
            lemma_marker_no_border(p.len() as int);
            assert(stop_marker().subrange(0, p.len() as int) =~= p);
        }
    }
}

/// Splitting a stop-free string yields that string as the only piece.
pub proof fn lemma_split_stop_free(s: Seq<char>)
    requires
        stop_free(s),
    ensures
        split_on_stop(s) =~~= seq![s],
    decreases s.len(),
{
    if stop_at(s, 0) {
    } else if s.len() > 0 {
        assert(stop_free(s.skip(1))) by {
            assert forall|i: int| !stop_at(s.skip(1), i) by {
                if stop_at(s.skip(1), i) {
                    assert(s.skip(1) =~= s.subrange(1, s.len() as int));
                    lemma_stop_at_in_subrange(s, 1, s.len() as int, i);
                }
            }
        }
        lemma_split_stop_free(s.skip(1));
        assert(split_on_stop(s.skip(1))[0] == seq![s.skip(1)][0]);
        assert(split_on_stop(s)[0] =~= s);
        assert(split_on_stop(s) =~~= seq![s]);
    } else {
        assert(split_on_stop(s) =~~= seq![s]);
    }
}

/// Peeling one complete turn off the front of a composed string.
pub proof fn lemma_split_peel(p: Seq<char>, rest: Seq<char>)
    requires
        stop_free(p),
    ensures
        split_on_stop(p + stop_marker() + rest) =~~= seq![p] + split_on_stop(rest),
    decreases p.len(),
{
    let s = p + stop_marker() + rest;
    if p.len() == 0 {
        assert(s.subrange(0, 8) =~= stop_marker());
        assert(stop_at(s, 0));
        assert(s.skip(8) =~= rest);
        assert(split_on_stop(s) =~~= seq![p] + split_on_stop(rest));
    } else {
        lemma_no_stop_at_zero(p, rest);
        let p1 = p.skip(1);
        assert(stop_free(p1)) by {
            assert forall|i: int| !stop_at(p1, i) by {
                if stop_at(p1, i) {
                    assert(p1 =~= p.subrange(1, p.len() as int));
                    lemma_stop_at_in_subrange(p, 1, p.len() as int, i);
                }
            }
        }
        lemma_split_peel(p1, rest);
        assert(s.skip(1) =~= p1 + stop_marker() + rest);
        let inner = split_on_stop(s.skip(1));
        assert(inner =~~= seq![p1] + split_on_stop(rest));
        lemma_split_len(rest);
        assert(inner[0] == p1);
        assert(seq![s[0]] + p1 =~= p);
        assert(split_on_stop(s)[0] == p);
        assert forall|i: int| 1 <= i < split_on_stop(s).len() implies split_on_stop(s)[i] == (
        seq![p] + split_on_stop(rest))[i] by {
            assert(split_on_stop(s)[i] == inner.skip(1)[i - 1]);
            assert(inner.skip(1)[i - 1] == inner[i]);
            assert(inner[i] == split_on_stop(rest)[i - 1]);
        }
        assert(split_on_stop(s) =~~= seq![p] + split_on_stop(rest));
    }
}

/// The concatenation of a sequence of turns, in order, with no separator.
pub open spec fn concat_turns(ts: Seq<Seq<char>>) -> Seq<char>
    decreases ts.len(),
{
    if ts.len() == 0 {
        Seq::<char>::empty()
    } else {
        ts[0] + concat_turns(ts.skip(1))
    }
}

/// The bodies of a sequence of complete turns.
pub open spec fn bodies(ts: Seq<Seq<char>>) -> Seq<Seq<char>> {
    ts.map_values(|t: Seq<char>| turn_body(t))
}

/// A single turn concatenates to itself.
pub proof fn lemma_concat_singleton(t: Seq<char>)
    ensures
        concat_turns(seq![t]) =~= t,
{
    assert(seq![t].skip(1) =~~= Seq::<Seq<char>>::empty());
    assert(concat_turns(Seq::<Seq<char>>::empty()) =~= Seq::<char>::empty());
    assert(concat_turns(seq![t]) =~= t + concat_turns(Seq::<Seq<char>>::empty()));
}

/// Concatenation distributes over appending sequences of turns.
pub proof fn lemma_concat_append(a: Seq<Seq<char>>, b: Seq<Seq<char>>)
    ensures
        concat_turns(a + b) =~= concat_turns(a) + concat_turns(b),
    decreases a.len(),
{
    if a.len() == 0 {
        assert(a + b =~~= b);
    } else {
        lemma_concat_append(a.skip(1), b);
        assert((a + b).skip(1) =~~= a.skip(1) + b);
        assert(concat_turns(a + b) =~= (a + b)[0] + concat_turns((a + b).skip(1)));
    }
}

/// Splitting well-formed turns followed by a tail recovers each turn body,
/// then the pieces of the tail.
pub proof fn lemma_split_concat_wf(ts: Seq<Seq<char>>, tail: Seq<char>)
    requires
        forall|i: int| 0 <= i < ts.len() ==> wf_turn(#[trigger] ts[i]),
    ensures
        split_on_stop(concat_turns(ts) + tail) =~~= bodies(ts) + split_on_stop(tail),
    decreases ts.len(),
{
    if ts.len() == 0 {
        assert(concat_turns(ts) + tail =~= tail);
        assert(bodies(ts) =~~= Seq::<Seq<char>>::empty());
    } else {
        let t = ts[0];
        let rest = concat_turns(ts.skip(1)) + tail;
        assert(t =~= turn_body(t) + stop_marker());
        assert(concat_turns(ts) + tail =~= turn_body(t) + stop_marker() + rest);
        lemma_split_peel(turn_body(t), rest);
        lemma_split_concat_wf(ts.skip(1), tail);
        assert(bodies(ts.skip(1)) =~~= bodies(ts).skip(1));
        assert(bodies(ts)[0] == turn_body(t));
        assert(split_on_stop(concat_turns(ts) + tail) =~~= bodies(ts) + split_on_stop(tail));
    }
}

/// Concatenating text that never begins with a partial marker onto stop-free
/// text cannot create a marker occurrence.
pub proof fn lemma_stop_free_concat(a: Seq<char>, b: Seq<char>)
    requires
        stop_free(a),
        stop_free(b),
        no_marker_suffix_start(b),
    ensures
        stop_free(a + b),
{
    let s = a + b;
    assert forall|i: int| !stop_at(s, i) by {
        if stop_at(s, i) {
            if i + 8 <= a.len() {
                assert(s.subrange(i, i + 8) =~= a.subrange(i, i + 8));
                assert(stop_at(a, i));
            } else if i >= a.len() {
                let j = i - a.len();
                assert(s.subrange(i, i + 8) =~= b.subrange(j, j + 8));
                assert(stop_at(b, j));
            } else {
                // The occurrence spans the boundary, so b begins with the
                // last k characters of the marker.
                let k = i + 8 - a.len();
                assert(1 <= k <= 7);
                let m = stop_marker();
                assert forall|j: int| 0 <= j < k implies b.subrange(0, k)[j]
                    == m.subrange(8 - k, 8)[j] by {
                    assert(b.subrange(0, k)[j] == s[a.len() + j]);
                    assert(s[a.len() + j] == s.subrange(i, i + 8)[8 - k + j]);
                    assert(s.subrange(i, i + 8)[8 - k + j] == m[8 - k + j]);
                }
                assert(b.subrange(0, k) =~= stop_marker().subrange(8 - k, 8));
            }
        }
    }
}

} // verus!
