//! The per-session history store: a concurrent map from session id to that
//! session's bounded turn ring. The map itself is dashmap's; everything done
//! to the rings inside it is verified.

use dashmap::DashMap;
use vstd::prelude::*;

use crate::marker::concat_turns;
use crate::queue::{record_model, FixedSizeQueue};
use crate::HISTORY_CAPACITY;

verus! {

#[verifier::external_type_specification]
#[verifier::external_body]
#[verifier::reject_recursive_types(K)]
#[verifier::reject_recursive_types(V)]
#[verifier::reject_recursive_types(S)]
pub struct ExDashMap<K, V, S>(DashMap<K, V, S>);

/// What a history map holds: for each stored session id, the turns of its
/// ring and the ring's capacity.
pub uninterp spec fn history_entries(m: DashMap<String, FixedSizeQueue<String>>) -> Map<
    Seq<char>,
    (Seq<Seq<char>>, nat),
>;

/// Relies on dashmap::DashMap::new: a freshly created map has no entries.
#[verifier::external_body]
fn history_map_new() -> (r: DashMap<String, FixedSizeQueue<String>>)
    ensures
        history_entries(r).dom() == Set::<Seq<char>>::empty(),
{
    DashMap::new()
}

/// Relies on dashmap::DashMap::remove: takes the key's entry out of the map
/// and returns the stored value.
#[verifier::external_body]
fn history_map_remove(m: &mut DashMap<String, FixedSizeQueue<String>>, uuid: &str) -> (r: Option<
    FixedSizeQueue<String>,
>)
    ensures
        history_entries(*final(m)) == history_entries(*old(m)).remove(uuid@),
        r is Some <==> history_entries(*old(m)).contains_key(uuid@),
        r matches Some(q) ==> (q.turns(), q.cap()) == history_entries(*old(m))[uuid@],
{
    m.remove(uuid).map(|kv| kv.1)
}

/// Relies on dashmap::DashMap::insert: afterwards the key maps to exactly
/// this value, other entries unchanged.
#[verifier::external_body]
fn history_map_insert(
    m: &mut DashMap<String, FixedSizeQueue<String>>,
    uuid: String,
    q: FixedSizeQueue<String>,
)
    ensures
        history_entries(*final(m)) == history_entries(*old(m)).insert(uuid@, (q.turns(), q.cap())),
{
    m.insert(uuid, q);
}

/// Relies on dashmap::DashMap::get: a clone of the stored value for the key,
/// if the key is present.
#[verifier::external_body]
fn history_map_get(m: &DashMap<String, FixedSizeQueue<String>>, uuid: &str) -> (r: Option<
    FixedSizeQueue<String>,
>)
    ensures
        r is Some <==> history_entries(*m).contains_key(uuid@),
        r matches Some(q) ==> (q.turns(), q.cap()) == history_entries(*m)[uuid@],
{
    m.get(uuid).map(|entry| entry.value().clone())
}

/// The store of every session's conversation history.
pub struct MemoryEmitter {
    inner: DashMap<String, FixedSizeQueue<String>>,
}

impl MemoryEmitter {
    /// The stored entries: turns and ring capacity per session id.
    pub closed spec fn entries(&self) -> Map<Seq<char>, (Seq<Seq<char>>, nat)> {
        history_entries(self.inner)
    }

    /// The turns stored for each session id.
    pub open spec fn histories(&self) -> Map<Seq<char>, Seq<Seq<char>>> {
        self.entries().map_values(|e: (Seq<Seq<char>>, nat)| e.0)
    }

    /// Every stored ring has the standard capacity and respects it.
    pub open spec fn wf(&self) -> bool {
        forall|k: Seq<char>|
            self.entries().contains_key(k) ==> (#[trigger] self.entries()[k]).1
                == HISTORY_CAPACITY as nat && self.entries()[k].0.len() <= HISTORY_CAPACITY as nat
    }

    /// An empty store.
    pub fn new() -> (r: Self)
        ensures
            r.wf(),
            r.histories() == Map::<Seq<char>, Seq<Seq<char>>>::empty(),
    {
        let r = MemoryEmitter { inner: history_map_new() };
        proof {
            assert(r.histories() =~= Map::<Seq<char>, Seq<Seq<char>>>::empty());
        }
        r
    }

    /// Compose the stored history of a session into one string; a session
    /// never seen yields the empty string.
    pub fn get(&self, uuid: &str) -> (r: String)
        ensures
            self.histories().contains_key(uuid@) ==> r@ == concat_turns(self.histories()[uuid@]),
            !self.histories().contains_key(uuid@) ==> r@ == Seq::<char>::empty(),
    {
        match history_map_get(&self.inner, uuid) {
            Some(q) => q.compose(),
            None => String::new(),
        }
    }

    /// Record one delta into the session's ring, creating a fresh ring of the
    /// standard capacity on first contact.
    pub fn insert(&mut self, uuid: String, reply: String)
        requires
            old(self).wf(),
        ensures
            final(self).wf(),
            final(self).histories() == old(self).histories().insert(
                uuid@,
                record_model(
                    if old(self).histories().contains_key(uuid@) {
                        old(self).histories()[uuid@]
                    } else {
                        Seq::<Seq<char>>::empty()
                    },
                    HISTORY_CAPACITY as nat,
                    reply@,
                ),
            ),
    {
        let mut q = match history_map_remove(&mut self.inner, uuid.as_str()) {
            Some(q) => q,
            None => FixedSizeQueue::new(HISTORY_CAPACITY),
        };
        proof {
            if old(self).entries().contains_key(uuid@) {
                assert(old(self).entries()[uuid@].1 == HISTORY_CAPACITY as nat);
            }
            assert(q.turns().len() == q.items().len());
            assert(q.wf());
        }
        q.handle_incoming(reply);
        history_map_insert(&mut self.inner, uuid, q);
        proof {
            assert(self.histories() =~~= old(self).histories().insert(
                uuid@,
                record_model(
                    if old(self).histories().contains_key(uuid@) {
                        old(self).histories()[uuid@]
                    } else {
                        Seq::<Seq<char>>::empty()
                    },
                    HISTORY_CAPACITY as nat,
                    reply@,
                ),
            ));
        }
    }
}

} // verus!
