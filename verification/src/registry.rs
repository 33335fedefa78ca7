//! The client registry: session id → outbound event channel. An insert for
//! an id already present overwrites its sender; a publish to an unknown id is
//! dropped rather than an error.

use tokio::sync::mpsc::UnboundedSender;
use vstd::prelude::*;

use crate::text::str_eq;

verus! {

/// An outbound event for a session's SSE channel.
#[derive(Debug, Clone)]
pub enum Message {
    Connected(String),
    Reply(String),
}

/// The JSON shape of one reply frame on the SSE channel.
pub struct MessageEvent {
    pub message: String,
}

#[verifier::external_type_specification]
#[verifier::external_body]
#[verifier::reject_recursive_types(T)]
pub struct ExUnboundedSender<T>(UnboundedSender<T>);

/// Relies on tokio's UnboundedSender::send, which queues the message for the
/// receiver and fails only when the receiver has been dropped.
#[verifier::external_body]
fn channel_send(tx: &UnboundedSender<Message>, message: Message) -> (r: bool) {
    tx.send(message).is_ok()
}

/// The map an entry list denotes: later entries shadow earlier ones.
pub open spec fn map_of_entries(es: Seq<(String, UnboundedSender<Message>)>) -> Map<
    Seq<char>,
    UnboundedSender<Message>,
>
    decreases es.len(),
{
    if es.len() == 0 {
        Map::<Seq<char>, UnboundedSender<Message>>::empty()
    } else {
        map_of_entries(es.drop_last()).insert(es.last().0@, es.last().1)
    }
}

/// No session id occurs twice in the entry list.
pub open spec fn unique_ids(es: Seq<(String, UnboundedSender<Message>)>) -> bool {
    forall|i: int, j: int|
        0 <= i < j < es.len() ==> (#[trigger] es[i]).0@ != (#[trigger] es[j]).0@
}

/// A key is in the denoted map exactly when some entry carries it.
proof fn lemma_map_of_entries_dom(es: Seq<(String, UnboundedSender<Message>)>, k: Seq<char>)
    ensures
        map_of_entries(es).contains_key(k) <==> exists|i: int|
            0 <= i < es.len() && (#[trigger] es[i]).0@ == k,
    decreases es.len(),
{
    if es.len() > 0 {
        lemma_map_of_entries_dom(es.drop_last(), k);
        if map_of_entries(es).contains_key(k) {
            if es.last().0@ != k {
                let i = choose|i: int| 0 <= i < es.drop_last().len() && (#[trigger] es.drop_last()[
                    i]).0@ == k;
                assert(es[i].0@ == k);
            }
        }
        if exists|i: int| 0 <= i < es.len() && (#[trigger] es[i]).0@ == k {
            let i = choose|i: int| 0 <= i < es.len() && (#[trigger] es[i]).0@ == k;
            if i < es.len() - 1 {
                assert(es.drop_last()[i].0@ == k);
            }
        }
    }
}

/// With unique ids, the entry carrying a key gives the mapped sender.
proof fn lemma_map_of_entries_at(es: Seq<(String, UnboundedSender<Message>)>, i: int)
    requires
        unique_ids(es),
        0 <= i < es.len(),
    ensures
        map_of_entries(es).contains_key(es[i].0@),
        map_of_entries(es)[es[i].0@] == es[i].1,
    decreases es.len(),
{
    if i == es.len() - 1 {
    } else {
        assert(unique_ids(es.drop_last()));
        assert(es.drop_last()[i] == es[i]);
        lemma_map_of_entries_at(es.drop_last(), i);
        assert(es[i].0@ != es.last().0@);
    }
}

/// Replacing the entry that carries a key denotes a plain map insert.
proof fn lemma_map_of_entries_update(
    es: Seq<(String, UnboundedSender<Message>)>,
    i: int,
    e: (String, UnboundedSender<Message>),
)
    requires
        unique_ids(es),
        0 <= i < es.len(),
        es[i].0@ == e.0@,
    ensures
        map_of_entries(es.update(i, e)) =~= map_of_entries(es).insert(e.0@, e.1),
    decreases es.len(),
{
    let upd = es.update(i, e);
    if i == es.len() - 1 {
        assert(upd.drop_last() =~~= es.drop_last());
        assert(upd.last() == e);
    } else {
        assert(unique_ids(es.drop_last()));
        assert(es.drop_last()[i] == es[i]);
        lemma_map_of_entries_update(es.drop_last(), i, e);
        assert(upd.drop_last() =~~= es.drop_last().update(i, e));
        assert(upd.last() == es.last());
        assert(es.last().0@ != e.0@);
    }
}

/// The registry of connected clients.
pub struct SseEmitter {
    entries: Vec<(String, UnboundedSender<Message>)>,
}

impl SseEmitter {
    /// The outbound channel registered for each session id.
    pub closed spec fn senders(&self) -> Map<Seq<char>, UnboundedSender<Message>> {
        map_of_entries(self.entries@)
    }

    /// Each session id is registered at most once.
    pub closed spec fn wf(&self) -> bool {
        unique_ids(self.entries@)
    }

    /// An empty registry.
    pub fn new() -> (r: Self)
        ensures
            r.wf(),
            r.senders() == Map::<Seq<char>, UnboundedSender<Message>>::empty(),
    {
        SseEmitter { entries: Vec::new() }
    }

    /// Register the outbound channel of a session; a second insert for the
    /// same id overwrites the first, so no session is ever delivered twice.
    pub fn insert(&mut self, uuid: String, tx: UnboundedSender<Message>)
        requires
            old(self).wf(),
        ensures
            final(self).wf(),
            final(self).senders() == old(self).senders().insert(uuid@, tx),
    {
        let n = self.entries.len();
        let mut i: usize = 0;
        while i < n
            invariant
                n == self.entries@.len(),
                0 <= i <= n,
                self == old(self),
                unique_ids(self.entries@),
                forall|j: int| 0 <= j < i ==> (#[trigger] self.entries@[j]).0@ != uuid@,
            decreases n - i,
        {
            if str_eq(self.entries[i].0.as_str(), uuid.as_str()) {
                proof {
                    lemma_map_of_entries_update(self.entries@, i as int, (uuid, tx));
                }
                self.entries[i] = (uuid, tx);
                proof {
                    assert(unique_ids(self.entries@)) by {
                        assert forall|a: int, b: int|
                            0 <= a < b < self.entries@.len() implies (#[trigger] self.entries@[
                        a]).0@ != (#[trigger] self.entries@[b]).0@ by {
                            assert(old(self).entries@[a].0@ != old(self).entries@[b].0@);
                        }
                    }
                }
                return;
            }
            i = i + 1;
        }
        proof {
            assert(self.entries@.push((uuid, tx)).drop_last() =~~= self.entries@);
            assert forall|j: int|
                0 <= j < self.entries@.len() implies (#[trigger] self.entries@[j]).0@ != uuid@ by {}
        }
        self.entries.push((uuid, tx));
    }

    /// Send an event to the session's channel; an unknown session id is
    /// reported as `false` and otherwise ignored.
    pub fn publish(&self, uuid: &str, message: Message) -> (r: bool)
        requires
            self.wf(),
        ensures
            r == self.senders().contains_key(uuid@),
    {
        let n = self.entries.len();
        let mut i: usize = 0;
        while i < n
            invariant
                n == self.entries@.len(),
                0 <= i <= n,
                self.wf(),
                forall|j: int| 0 <= j < i ==> (#[trigger] self.entries@[j]).0@ != uuid@,
            decreases n - i,
        {
            if str_eq(self.entries[i].0.as_str(), uuid) {
                channel_send(&self.entries[i].1, message);
                proof {
                    lemma_map_of_entries_at(self.entries@, i as int);
                }
                return true;
            }
            i = i + 1;
        }
        proof {
            lemma_map_of_entries_dom(self.entries@, uuid@);
        }
        false
    }
}

/// Inserting twice under one id leaves exactly what the second insert put
/// there: the overwrite keeps a single registered channel per session.
pub proof fn lemma_insert_overwrites(
    m: Map<Seq<char>, UnboundedSender<Message>>,
    id: Seq<char>,
    tx1: UnboundedSender<Message>,
    tx2: UnboundedSender<Message>,
)
    ensures
        m.insert(id, tx1).insert(id, tx2) =~= m.insert(id, tx2),
        m.insert(id, tx1).insert(id, tx2).dom() =~= m.insert(id, tx2).dom(),
{
}

} // verus!
