use vstd::prelude::*;

use std::collections::HashMap;

use crate::addr::Addr;

verus! {

broadcast use vstd::std_specs::hash::group_hash_axioms;

/// One in-flight client query awaiting an upstream reply: the transaction id
/// the relay substituted before forwarding, the client the eventual reply
/// must be sent to, the transaction id that client used, to be restored
/// verbatim in the reply, and the caller's clock reading when the query was
/// accepted, so that abandoned entries can be expired.
#[derive(Clone, Copy, PartialEq, Eq, Structural, Debug)]
pub struct PendingQuery {
    pub assigned_id: u16,
    pub client: Addr,
    pub original_id: u16,
    pub created_at: u64,
}

/// The correlation table: all pending queries, keyed by assigned id, with at
/// most one entry per id at any instant. Entries are created when a client
/// query is accepted and removed, atomically with the lookup, when a
/// matching upstream reply arrives.
pub struct CorrelationTable {
    entries: HashMap<u16, PendingQuery>,
}

impl View for CorrelationTable {
    type V = Map<u16, PendingQuery>;

    closed spec fn view(&self) -> Map<u16, PendingQuery> {
        self.entries@
    }
}

impl CorrelationTable {
    /// Every entry is keyed by its own assigned id.
    pub open spec fn wf(&self) -> bool {
        forall|k: u16| self@.contains_key(k) ==> (#[trigger] self@[k]).assigned_id == k
    }

    pub fn new() -> (r: CorrelationTable)
        ensures
            r@ =~= Map::<u16, PendingQuery>::empty(),
            r.wf(),
    {
        CorrelationTable { entries: HashMap::new() }
    }

    /// The number of queries currently pending.
    pub fn len(&self) -> (r: usize)
        ensures
            r == self@.len(),
    {
        self.entries.len()
    }

    /// Whether a query with this assigned id is currently pending.
    pub fn contains(&self, assigned_id: u16) -> (r: bool)
        ensures
            r == self@.contains_key(assigned_id),
    {
        self.entries.contains_key(&assigned_id)
    }

    /// Records a new pending query. The caller's id-allocation policy must
    /// hand in an id with no live entry, so that no reply can ever be routed
    /// to the wrong client by a silent overwrite.
    pub fn insert(&mut self, assigned_id: u16, client: Addr, original_id: u16, created_at: u64)
        requires
            !old(self)@.contains_key(assigned_id),
            old(self).wf(),
        ensures
            final(self)@ == old(self)@.insert(
                assigned_id,
                PendingQuery { assigned_id, client, original_id, created_at },
            ),
            final(self).wf(),
    {
        self.entries.insert(
            assigned_id,
            PendingQuery { assigned_id, client, original_id, created_at },
        );
    }

    /// Atomically looks up and removes the pending query with this assigned
    /// id. `None` is not an error: unmatched, late and duplicate replies are
    /// expected, and the caller drops them silently. No entry is ever read
    /// without being removed in the same operation.
    pub fn take_by_assigned_id(&mut self, assigned_id: u16) -> (r: Option<PendingQuery>)
        requires
            old(self).wf(),
        ensures
            old(self)@.contains_key(assigned_id) ==> r == Some(old(self)@[assigned_id])
                && final(self)@ == old(self)@.remove(assigned_id),
            !old(self)@.contains_key(assigned_id) ==> r is None && final(self)@ == old(self)@,
            final(self).wf(),
            r matches Some(pq) ==> pq.assigned_id == assigned_id,
    {
        let r = self.entries.remove(&assigned_id);
        proof {
            assert(self@ == old(self)@.remove(assigned_id));
            assert forall|k: u16| self@.contains_key(k) implies (#[trigger] self@[k]).assigned_id
                == k by {
                assert(old(self)@.contains_key(k));
            }
            if r is Some {
                assert(old(self)@.contains_key(assigned_id));
            }
        }
        r
    }
    /// Removes every pending query recorded before `cutoff`, reclaiming
    /// table slots — and with them assignable ids — from queries whose
    /// reply never came. Entries recorded at or after `cutoff` are kept
    /// untouched.
    pub fn expire_older_than(&mut self, cutoff: u64)
        requires
            old(self).wf(),
        ensures
            final(self).wf(),
            forall|k: u16|
                #[trigger] final(self)@.contains_key(k) <==> (old(self)@.contains_key(k) && old(
                    self,
                )@[k].created_at >= cutoff),
            forall|k: u16|
                final(self)@.contains_key(k) ==> #[trigger] final(self)@[k] == old(self)@[k],
    {
        let mut k: usize = 0;
        while k < 0x10000
            invariant
                k <= 0x10000,
                old(self).wf(),
                forall|id: u16|
                    id < k ==> (#[trigger] self@.contains_key(id) <==> (old(self)@.contains_key(id)
                        && old(self)@[id].created_at >= cutoff)),
                forall|id: u16|
                    id >= k ==> (#[trigger] self@.contains_key(id) <==> old(self)@.contains_key(
                        id,
                    )),
                forall|id: u16| self@.contains_key(id) ==> #[trigger] self@[id] == old(self)@[id],
            decreases 0x10000 - k,
        {
            let id = k as u16;
            let ghost pre = self@;
            let expired = match self.entries.get(&id) {
                Option::Some(pq) => pq.created_at < cutoff,
                Option::None => false,
            };
            proof {
                assert(expired == (pre.contains_key(id) && pre[id].created_at < cutoff));
            }
            if expired {
                self.entries.remove(&id);
                proof {
                    assert(self@ == pre.remove(id));
                }
            }
            k = k + 1;
        }
        proof {
            assert forall|id: u16| self@.contains_key(id) implies (#[trigger] self@[id]).assigned_id
                == id by {
                assert(old(self)@.contains_key(id));
            }
        }
    }
}

/// Inserting a pending query and immediately taking it by its assigned id
/// yields exactly the recorded client address and original id, and a second
/// take of the same id finds nothing: a reply resolves its query once.
pub proof fn lemma_insert_then_take(
    m: Map<u16, PendingQuery>,
    assigned_id: u16,
    client: Addr,
    original_id: u16,
    created_at: u64,
)
    ensures
        ({
            let m1 = m.insert(
                assigned_id,
                PendingQuery { assigned_id, client, original_id, created_at },
            );
            &&& m1.contains_key(assigned_id)
            &&& m1[assigned_id] == (PendingQuery { assigned_id, client, original_id, created_at })
            &&& !m1.remove(assigned_id).contains_key(assigned_id)
        }),
{
}

} // verus!
