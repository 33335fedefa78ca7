//! The bounded history ring. A `FixedSizeQueue` holds at most `capacity`
//! elements, evicting the oldest on overflow. The `String` instantiation
//! buffers the turns of one session: an incoming delta either starts a new
//! turn or extends the latest one, depending on whether the latest turn is
//! already complete (ends with the stop marker).

use std::collections::VecDeque;
use vstd::prelude::*;

use crate::marker::{
    clean_delta, concat_turns, is_complete, lemma_concat_append, lemma_split_concat_wf,
    lemma_split_stop_free, lemma_stop_free_concat, split_on_stop, stop_free, stop_str, wf_turn,
};
use crate::text::{is_suffix_of, str_ends_with};

verus! {

/// A queue that holds at most `capacity` elements; pushing into a full queue
/// drops the oldest element first.
#[derive(Clone)]
pub struct FixedSizeQueue<T> {
    deque: VecDeque<T>,
    capacity: usize,
}

impl<T> FixedSizeQueue<T> {
    /// The elements, oldest first.
    pub closed spec fn items(&self) -> Seq<T> {
        self.deque@
    }

    /// The bound on the number of elements.
    pub closed spec fn cap(&self) -> nat {
        self.capacity as nat
    }

    /// Well-formed: a positive capacity that the length never exceeds.
    pub open spec fn wf(&self) -> bool {
        1 <= self.cap() && self.items().len() <= self.cap()
    }

    /// Create an empty queue with the given capacity.
    pub fn new(capacity: usize) -> (q: Self)
        ensures
            q.items() == Seq::<T>::empty(),
            q.cap() == capacity,
    {
        FixedSizeQueue { deque: VecDeque::with_capacity(capacity), capacity }
    }

    /// Append an element; when the queue is full, the oldest element is
    /// evicted to make room.
    pub fn push(&mut self, item: T)
        requires
            old(self).wf(),
        ensures
            final(self).wf(),
            final(self).cap() == old(self).cap(),
            final(self).items() == if old(self).items().len() == old(self).cap() {
                old(self).items().drop_first().push(item)
            } else {
                old(self).items().push(item)
            },
    {
        if self.deque.len() == self.capacity {
            self.deque.pop_front();
        }
        self.deque.push_back(item);
    }
}

/// What `record` does to the turns of one session: a delta starts a new turn
/// when the buffer is empty or the latest turn is complete (evicting the
/// oldest turn if the buffer is full), and otherwise extends the latest turn.
pub open spec fn record_model(ts: Seq<Seq<char>>, cap: nat, d: Seq<char>) -> Seq<Seq<char>> {
    if ts.len() == 0 || is_complete(ts.last()) {
        if ts.len() == cap && cap > 0 {
            ts.drop_first().push(d)
        } else {
            ts.push(d)
        }
    } else {
        ts.update(ts.len() - 1, ts.last() + d)
    }
}

/// The shape a session's turn buffer always has: every turn but the latest is
/// whole and well-formed, and the latest is either still marker-free or whole.
pub open spec fn ring_wf(ts: Seq<Seq<char>>) -> bool {
    &&& forall|i: int| 0 <= i < ts.len() - 1 ==> wf_turn(#[trigger] ts[i])
    &&& ts.len() > 0 ==> (stop_free(ts.last()) || wf_turn(ts.last()))
}

impl FixedSizeQueue<String> {
    /// The turns as character sequences, oldest first.
    pub open spec fn turns(&self) -> Seq<Seq<char>> {
        self.items().map_values(|s: String| s@)
    }

    /// Is the latest turn complete (does it end with the stop marker)?
    pub fn last_is_stop(&self) -> (r: bool)
        ensures
            r == (self.items().len() > 0 && is_complete(self.turns().last())),
    {
        let n = self.deque.len();
        if n == 0 {
            false
        } else {
            let r = str_ends_with(self.deque[n - 1].as_str(), stop_str());
            proof {
                let last = self.turns().last();
                if is_suffix_of(crate::marker::stop_marker(), last) {
                    assert(is_complete(last));
                } else {
                    assert(!is_complete(last));
                }
            }
            r
        }
    }

    /// Extend the latest turn in place; without any turn this does nothing.
    pub fn push_to_latest(&mut self, slice: &str)
        ensures
            final(self).cap() == old(self).cap(),
            final(self).turns() =~~= if old(self).items().len() == 0 {
                old(self).turns()
            } else {
                old(self).turns().update(
                    old(self).turns().len() - 1,
                    old(self).turns().last() + slice@,
                )
            },
            final(self).items().len() == old(self).items().len(),
    {
        match self.deque.pop_back() {
            Some(last) => {
                let joined = last.concat(slice);
                self.deque.push_back(joined);
            },
            None => {},
        }
    }

    /// Digest one incoming delta: start a new turn when the buffer is empty
    /// or the latest turn is complete, else extend the latest turn.
    pub fn handle_incoming(&mut self, string: String)
        requires
            old(self).wf(),
        ensures
            final(self).wf(),
            final(self).cap() == old(self).cap(),
            final(self).turns() =~~= record_model(
                old(self).turns(),
                old(self).cap(),
                string@,
            ),
    {
        if self.deque.len() == 0 || self.last_is_stop() {
            self.push(string);
        } else {
            self.push_to_latest(string.as_str());
        }
    }

    /// Concatenate all turns, oldest first, with no separator.
    pub fn compose(&self) -> (r: String)
        ensures
            r@ == concat_turns(self.turns()),
    {
        let mut acc = String::new();
        let n = self.deque.len();
        let mut i: usize = 0;
        while i < n
            invariant
                n == self.items().len(),
                0 <= i <= n,
                acc@ =~= concat_turns(self.turns().take(i as int)),
            decreases n - i,
        {
            acc.append(self.deque[i].as_str());
            proof {
                let ts = self.turns();
                assert(ts.take(i + 1) =~~= ts.take(i as int) + seq![ts[i as int]]);
                lemma_concat_append(ts.take(i as int), seq![ts[i as int]]);
                crate::marker::lemma_concat_singleton(ts[i as int]);
            }
            i = i + 1;
        }
        proof {
            assert(self.turns().take(n as int) =~~= self.turns());
        }
        acc
    }
}

/// Recording a delta into a full buffer whose latest turn is complete
/// evicts exactly the oldest turn, and the buffer never outgrows its
/// capacity.
pub proof fn lemma_eviction(ts: Seq<Seq<char>>, cap: nat, d: Seq<char>)
    requires
        1 <= cap,
        ts.len() <= cap,
    ensures
        record_model(ts, cap, d).len() <= cap,
        ts.len() == cap && is_complete(ts.last()) ==> record_model(ts, cap, d) =~~= ts.drop_first().push(d),
{
}

/// Recording clean deltas keeps the turn buffer in its well-formed shape.
pub proof fn lemma_record_preserves_ring_wf(ts: Seq<Seq<char>>, cap: nat, d: Seq<char>)
    requires
        ring_wf(ts),
        clean_delta(d),
    ensures
        ring_wf(record_model(ts, cap, d)),
{
    let r = record_model(ts, cap, d);
    if ts.len() == 0 || is_complete(ts.last()) {
        if ts.len() > 0 {
            assert(wf_turn(ts.last()));
        }
        assert(r.last() == d);
        assert forall|i: int| 0 <= i < r.len() - 1 implies wf_turn(#[trigger] r[i]) by {
            if ts.len() == cap && cap > 0 {
                assert(r[i] == ts[i + 1]);
            } else {
                assert(r[i] == ts[i]);
            }
        }
    } else {
        assert(stop_free(ts.last()));
        let joined = ts.last() + d;
        if stop_free(d) {
            lemma_stop_free_concat(ts.last(), d);
            assert(stop_free(joined));
        } else {
            let body = crate::marker::turn_body(d);
            assert(crate::marker::no_marker_suffix_start(body)) by {
                assert forall|k: int|
                    1 <= k <= 7 implies !(k <= body.len() && body.subrange(0, k)
                    == crate::marker::stop_marker().subrange(8 - k, 8)) by {
                    if k <= body.len() {
                        assert(body.subrange(0, k) =~= d.subrange(0, k));
                    }
                }
            }
            lemma_stop_free_concat(ts.last(), body);
            assert(joined =~= (ts.last() + body) + crate::marker::stop_marker());
            assert(crate::marker::turn_body(joined) =~= ts.last() + body);
            assert(crate::marker::stop_at(joined, joined.len() - 8)) by {
                assert(crate::marker::stop_at(d, d.len() - 8));
                assert(joined.subrange(joined.len() - 8, joined.len() as int) =~= d.subrange(
                    d.len() - 8,
                    d.len() as int,
                ));
            }
            assert(wf_turn(joined));
        }
        assert(r.last() == joined);
        assert forall|i: int| 0 <= i < r.len() - 1 implies wf_turn(#[trigger] r[i]) by {
            assert(r[i] == ts[i]);
        }
    }
}

/// A well-formed turn buffer of at most `cap` turns composes to a string with
/// at most `cap + 1` pieces between stop markers.
pub proof fn lemma_ring_pieces(ts: Seq<Seq<char>>, cap: nat)
    requires
        ring_wf(ts),
        ts.len() <= cap,
    ensures
        split_on_stop(concat_turns(ts)).len() <= cap + 1,
{
    if ts.len() == 0 {
        assert(split_on_stop(concat_turns(ts)).len() == 1);
    } else if stop_free(ts.last()) {
        let front = ts.drop_last();
        assert(ts =~~= front + seq![ts.last()]);
        lemma_concat_append(front, seq![ts.last()]);
        crate::marker::lemma_concat_singleton(ts.last());
        lemma_split_concat_wf(front, ts.last());
        lemma_split_stop_free(ts.last());
        assert(concat_turns(ts) =~= concat_turns(front) + ts.last());
        assert(split_on_stop(concat_turns(ts)).len() == front.len() + 1);
    } else {
        assert(wf_turn(ts.last()));
        lemma_split_concat_wf(ts, Seq::<char>::empty());
        assert(concat_turns(ts) + Seq::<char>::empty() =~= concat_turns(ts));
        assert(split_on_stop(Seq::<char>::empty()).len() == 1);
        assert(split_on_stop(concat_turns(ts)).len() == ts.len() + 1);
    }
}

/// Folding a whole sequence of deltas into a turn buffer, oldest first.
pub open spec fn fold_records(ts: Seq<Seq<char>>, cap: nat, ds: Seq<Seq<char>>) -> Seq<Seq<char>>
    decreases ds.len(),
{
    if ds.len() == 0 {
        ts
    } else {
        fold_records(record_model(ts, cap, ds[0]), cap, ds.skip(1))
    }
}

proof fn lemma_fold_records_wf(ts: Seq<Seq<char>>, cap: nat, ds: Seq<Seq<char>>)
    requires
        1 <= cap,
        ring_wf(ts),
        ts.len() <= cap,
        forall|i: int| 0 <= i < ds.len() ==> clean_delta(#[trigger] ds[i]),
    ensures
        ring_wf(fold_records(ts, cap, ds)),
        fold_records(ts, cap, ds).len() <= cap,
    decreases ds.len(),
{
    if ds.len() > 0 {
        lemma_record_preserves_ring_wf(ts, cap, ds[0]);
        assert(record_model(ts, cap, ds[0]).len() <= cap);
        lemma_fold_records_wf(record_model(ts, cap, ds[0]), cap, ds.skip(1));
    }
}

/// After any sequence of clean recorded deltas, the composed history splits
/// on the stop marker into at most `cap + 1` pieces: at most `cap` completed
/// turns plus one possibly-incomplete tail.
pub proof fn lemma_history_pieces_bounded(cap: nat, ds: Seq<Seq<char>>)
    requires
        1 <= cap,
        forall|i: int| 0 <= i < ds.len() ==> clean_delta(#[trigger] ds[i]),
    ensures
        split_on_stop(concat_turns(fold_records(Seq::empty(), cap, ds))).len() <= cap + 1,
{
    lemma_fold_records_wf(Seq::empty(), cap, ds);
    lemma_ring_pieces(fold_records(Seq::empty(), cap, ds), cap);
}

} // verus!
