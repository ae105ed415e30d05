use vstd::prelude::*;

use crate::addr::Addr;
use crate::resolver::{
    counter_after, is_upstream_addr, selection_targets, wrap_inc, DNSResolver, ResolutionStrategy,
};
use crate::table::{CorrelationTable, PendingQuery};

verus! {

/// Smallest datagram the relay will process: anything shorter than the fixed
/// DNS header used for classification is dropped.
pub const MIN_DATAGRAM_LEN: usize = 8;

/// One outbound datagram the engine asks its caller to send.
pub struct Action {
    pub dest: Addr,
    pub payload: Vec<u8>,
}

/// The mathematical image of a list of actions: destination and payload
/// bytes of each.
pub open spec fn actions_model(s: Seq<Action>) -> Seq<(Addr, Seq<u8>)> {
    s.map_values(|a: Action| (a.dest, a.payload@))
}

/// The transaction id of a datagram: its first two bytes, big-endian.
pub open spec fn dgram_id(d: Seq<u8>) -> u16
    recommends
        d.len() >= 2,
{
    (d[0] as int * 256 + d[1] as int) as u16
}

/// The datagram with its transaction id overwritten (big-endian) and every
/// other byte unchanged.
pub open spec fn with_id(d: Seq<u8>, id: u16) -> Seq<u8>
    recommends
        d.len() >= 2,
{
    d.update(0, (id as int / 256) as u8).update(1, (id as int % 256) as u8)
}

/// The candidate id `k` steps after `start`, wrapping in the 16-bit space.
pub open spec fn wrap_at(start: u16, k: int) -> u16 {
    ((start as int + k) % 0x10000) as u16
}

/// The first candidate id at or after `start + k` (wrapping) with no live
/// pending entry, or `None` once all `0x10000` candidates are exhausted.
pub open spec fn first_free_from(pending: Map<u16, PendingQuery>, start: u16, k: int) -> Option<
    u16,
>
    decreases 0x10000 - k,
    when 0 <= k <= 0x10000
{
    if k >= 0x10000 {
        None
    } else if !pending.contains_key(wrap_at(start, k)) {
        Some(wrap_at(start, k))
    } else {
        first_free_from(pending, start, k + 1)
    }
}

/// The id the allocation policy assigns to a new query: the first id at or
/// after `start` (wrapping) that is not pending, or `None` when every 16-bit
/// id is occupied.
pub open spec fn first_free(pending: Map<u16, PendingQuery>, start: u16) -> Option<u16> {
    first_free_from(pending, start, 0)
}

/// The mathematical state of the forwarding engine: the configured
/// upstreams and selection strategy, the selector's rotation counter, the
/// pending-query table, and the next id the allocator tries first.
#[verifier::ext_equal]
pub struct EngineModel {
    pub upstreams: Seq<Addr>,
    pub strategy: ResolutionStrategy,
    pub counter: u16,
    pub pending: Map<u16, PendingQuery>,
    pub next_id: u16,
}

/// What the engine does with one datagram: the state after handling it, and
/// the datagrams to send out, in order.
///
/// A datagram below the minimum length is dropped. A datagram from a
/// configured upstream is a reply: if its id matches a pending query, that
/// entry is removed and the payload, with the client's original id
/// restored, goes to the recorded client; otherwise it is dropped silently.
/// Any other datagram is a fresh query: a free id is allocated, the query
/// is recorded, and the payload, rewritten to the assigned id, goes to
/// every selected upstream; if no id is free the query is dropped.
pub open spec fn step(s: EngineModel, d: Seq<u8>, origin: Addr, now: u64) -> (EngineModel, Seq<
    (Addr, Seq<u8>),
>) {
    if d.len() < MIN_DATAGRAM_LEN {
        (s, Seq::<(Addr, Seq<u8>)>::empty())
    } else {
        let tid = dgram_id(d);
        if is_upstream_addr(s.upstreams, origin) {
            if s.pending.contains_key(tid) {
                let pq = s.pending[tid];
                (
                    EngineModel {
                        upstreams: s.upstreams,
                        strategy: s.strategy,
                        counter: s.counter,
                        pending: s.pending.remove(tid),
                        next_id: s.next_id,
                    },
                    seq![(pq.client, with_id(d, pq.original_id))],
                )
            } else {
                (s, Seq::<(Addr, Seq<u8>)>::empty())
            }
        } else {
            match first_free(s.pending, s.next_id) {
                Option::None => (s, Seq::<(Addr, Seq<u8>)>::empty()),
                Option::Some(aid) => (
                    EngineModel {
                        upstreams: s.upstreams,
                        strategy: s.strategy,
                        counter: counter_after(s.strategy, s.counter),
                        pending: s.pending.insert(
                            aid,
                            PendingQuery {
                                assigned_id: aid,
                                client: origin,
                                original_id: tid,
                                created_at: now,
                            },
                        ),
                        next_id: wrap_inc(aid),
                    },
                    selection_targets(s.upstreams, s.strategy, s.counter).map_values(
                        |t: Addr| (t, with_id(d, aid)),
                    ),
                ),
            }
        }
    }
}

/// The forwarding engine: owns the selector, the correlation table, and the
/// wrapping counter from which assigned ids are drawn. The caller owns the
/// socket; it hands every received datagram to `handle_datagram` and
/// performs the sends the engine returns.
pub struct DNSForwarderServer {
    pub resolver: DNSResolver,
    pub pending: CorrelationTable,
    pub next_id: u16,
}

impl View for DNSForwarderServer {
    type V = EngineModel;

    open spec fn view(&self) -> EngineModel {
        EngineModel {
            upstreams: self.resolver.upstream@,
            strategy: self.resolver.strategy,
            counter: self.resolver.counter,
            pending: self.pending@,
            next_id: self.next_id,
        }
    }
}

fn read_id(data: &Vec<u8>) -> (r: u16)
    requires
        data.len() >= 2,
    ensures
        r == dgram_id(data@),
{
    (data[0] as u16) * 256 + (data[1] as u16)
}

fn rewrite_id(data: &Vec<u8>, id: u16) -> (r: Vec<u8>)
    requires
        data.len() >= 2,
    ensures
        r@ =~= with_id(data@, id),
{
    let mut r: Vec<u8> = Vec::new();
    r.push((id / 256) as u8);
    r.push((id % 256) as u8);
    let mut i: usize = 2;
    while i < data.len()
        invariant
            2 <= i <= data.len(),
            r@.len() == i,
            r@[0] == (id as int / 256) as u8,
            r@[1] == (id as int % 256) as u8,
            forall|j: int| 2 <= j < i ==> r@[j] == data@[j],
        decreases data.len() - i,
    {
        r.push(data[i]);
        i = i + 1;
    }
    r
}

impl DNSForwarderServer {
    /// The engine is usable: at least one upstream is configured (an empty
    /// set is a configuration error rejected at startup) and the table is
    /// well formed.
    pub open spec fn wf(&self) -> bool {
        self.resolver.upstream.len() >= 1 && self.pending.wf()
    }

    pub fn new(resolver: DNSResolver) -> (r: DNSForwarderServer)
        requires
            resolver.upstream.len() >= 1,
        ensures
            r.wf(),
            r@.upstreams == resolver.upstream@,
            r@.strategy == resolver.strategy,
            r@.counter == resolver.counter,
            r@.pending =~= Map::<u16, PendingQuery>::empty(),
            r@.next_id == 0,
    {
        DNSForwarderServer { resolver, pending: CorrelationTable::new(), next_id: 0 }
    }

    /// Finds the first transaction id at or after `next_id` (wrapping) with
    /// no pending entry, so that accepting a new query never silently
    /// overwrites a live one.
    fn allocate_id(&self) -> (r: Option<u16>)
        ensures
            r == first_free(self.pending@, self.next_id),
    {
        let start = self.next_id;
        let mut k: usize = 0;
        while k < 0x10000
            invariant
                k <= 0x10000,
                start == self.next_id,
                first_free(self.pending@, start) == first_free_from(
                    self.pending@,
                    start,
                    k as int,
                ),
            decreases 0x10000 - k,
        {
            let cand: u16 = (((start as usize) + k) % 0x10000) as u16;
            proof {
                assert(cand == wrap_at(start, k as int));
            }
            if !self.pending.contains(cand) {
                proof {
                    assert(first_free_from(self.pending@, start, k as int) == Some(cand));
                }
                return Some(cand);
            }
            proof {
                assert(first_free_from(self.pending@, start, k as int) == first_free_from(
                    self.pending@,
                    start,
                    k as int + 1,
                ));
            }
            k = k + 1;
        }
        None
    }

    /// Handles one received datagram: classifies it, updates the engine
    /// state, and returns the datagrams to send, exactly as `step` says.
    /// `now` is the caller's clock reading, recorded with a newly accepted
    /// query so that the entry can later be expired if no reply comes.
    pub fn handle_datagram(&mut self, data: &Vec<u8>, origin: Addr, now: u64) -> (r: Vec<Action>)
        requires
            old(self).wf(),
        ensures
            final(self).wf(),
            final(self)@ =~= step(old(self)@, data@, origin, now).0,
            actions_model(r@) =~= step(old(self)@, data@, origin, now).1,
    {
        let mut out: Vec<Action> = Vec::new();
        if data.len() < MIN_DATAGRAM_LEN {
            return out;
        }
        let tid = read_id(data);
        if self.resolver.contains_upstream(origin) {
            match self.pending.take_by_assigned_id(tid) {
                Option::Some(pq) => {
                    let payload = rewrite_id(data, pq.original_id);
                    out.push(Action { dest: pq.client, payload });
                },
                Option::None => {},
            }
        } else {
            match self.allocate_id() {
                Option::Some(aid) => {
                    proof {
                        lemma_first_free_is_free(self.pending@, self.next_id, 0);
                    }
                    self.pending.insert(aid, origin, tid, now);
                    self.next_id = if aid == 0xffff {
                        0
                    } else {
                        aid + 1
                    };
                    let ghost pre_counter = self.resolver.counter;
                    let targets = self.resolver.produce_upstreams();
                    let ghost tgs = targets@;
                    let mut i: usize = 0;
                    while i < targets.len()
                        invariant
                            i <= targets.len(),
                            data.len() >= 2,
                            targets@ == tgs,
                            actions_model(out@).len() == i,
                            forall|j: int|
                                0 <= j < i ==> actions_model(out@)[j] == (
                                tgs[j],
                                with_id(data@, aid),
                            ),
                        decreases targets.len() - i,
                    {
                        let ghost prev = out@;
                        let payload = rewrite_id(data, aid);
                        out.push(Action { dest: targets[i], payload });
                        proof {
                            assert forall|j: int| 0 <= j <= i implies actions_model(out@)[j] == (
                            tgs[j],
                            with_id(data@, aid),
                            ) by {
                                assert(actions_model(out@)[j] == (out@[j].dest, out@[j].payload@));
                                if j < i {
                                    assert(out@[j] == prev[j]);
                                    assert(actions_model(prev)[j] == (prev[j].dest, prev[j].payload@));
                                }
                            }
                        }
                        i = i + 1;
                    }
                },
                Option::None => {},
            }
        }
        out
    }
}

/// A `Some` from the allocator really is free: the id it hands out has no
/// live pending entry.
pub proof fn lemma_first_free_is_free(pending: Map<u16, PendingQuery>, start: u16, k: int)
    requires
        0 <= k <= 0x10000,
    ensures
        first_free_from(pending, start, k) matches Some(aid) ==> !pending.contains_key(aid),
    decreases 0x10000 - k,
{
    if k < 0x10000 && pending.contains_key(wrap_at(start, k)) {
        lemma_first_free_is_free(pending, start, k + 1);
    }
}

/// A `None` from the allocator means every candidate from `k` on is
/// occupied.
proof fn lemma_first_free_exhausted(pending: Map<u16, PendingQuery>, start: u16, k: int)
    requires
        0 <= k <= 0x10000,
        first_free_from(pending, start, k) is None,
    ensures
        forall|j: int| k <= j < 0x10000 ==> pending.contains_key(#[trigger] wrap_at(start, j)),
    decreases 0x10000 - k,
{
    if k < 0x10000 {
        lemma_first_free_exhausted(pending, start, k + 1);
    }
}

/// The allocator gives up only when the table is truly saturated: if no id
/// at or after `start` is free, then every one of the 65536 transaction ids
/// has a live pending entry.
pub proof fn lemma_alloc_none_table_full(pending: Map<u16, PendingQuery>, start: u16)
    requires
        first_free(pending, start) is None,
    ensures
        forall|i: u16| pending.contains_key(i),
{
    lemma_first_free_exhausted(pending, start, 0);
    assert forall|i: u16| pending.contains_key(i) by {
        let d = i as int - start as int;
        let j = d % 0x10000;
        vstd::arithmetic::div_mod::lemma_mod_bound(d, 0x10000);
        vstd::arithmetic::div_mod::lemma_fundamental_div_mod(d, 0x10000);
        let q = d / 0x10000;
        assert(start as int + j == 0x10000 * (-q) + i as int);
        vstd::arithmetic::div_mod::lemma_mod_multiples_vanish(-q, i as int, 0x10000);
        vstd::arithmetic::div_mod::lemma_small_mod(i as nat, 0x10000);
        assert(wrap_at(start, j) == i);
        assert(pending.contains_key(wrap_at(start, j)));
    }
}

/// A reply whose transaction id has no pending entry — already resolved,
/// never existed, or spoofed — is dropped: no outbound send, no state
/// change.
pub proof fn lemma_unmatched_reply_dropped(s: EngineModel, d: Seq<u8>, origin: Addr, now: u64)
    requires
        d.len() >= MIN_DATAGRAM_LEN,
        is_upstream_addr(s.upstreams, origin),
        !s.pending.contains_key(dgram_id(d)),
    ensures
        step(s, d, origin, now).0 == s,
        step(s, d, origin, now).1 =~= Seq::<(Addr, Seq<u8>)>::empty(),
{
}

/// A datagram below the minimum length is dropped without any outbound send
/// and without touching the correlation table.
pub proof fn lemma_short_datagram_dropped(s: EngineModel, d: Seq<u8>, origin: Addr, now: u64)
    requires
        d.len() < MIN_DATAGRAM_LEN,
    ensures
        step(s, d, origin, now).0 == s,
        step(s, d, origin, now).1 =~= Seq::<(Addr, Seq<u8>)>::empty(),
{
}

/// Resolving a reply is idempotent: the first matching reply removes the
/// pending entry and is relayed, and a duplicate delivery of the same reply
/// afterwards produces no send at all and changes nothing.
pub proof fn lemma_duplicate_reply_dropped(
    s: EngineModel,
    d: Seq<u8>,
    origin: Addr,
    now: u64,
    later: u64,
)
    requires
        d.len() >= MIN_DATAGRAM_LEN,
        is_upstream_addr(s.upstreams, origin),
        s.pending.contains_key(dgram_id(d)),
    ensures
        ({
            let s1 = step(s, d, origin, now).0;
            &&& step(s, d, origin, now).1.len() == 1
            &&& step(s1, d, origin, later).0 == s1
            &&& step(s1, d, origin, later).1 =~= Seq::<(Addr, Seq<u8>)>::empty()
        }),
{
}

} // verus!
