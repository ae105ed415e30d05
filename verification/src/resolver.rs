use vstd::prelude::*;

use crate::addr::Addr;

verus! {

/// How upstream resolvers are chosen for an outbound query: one per query in
/// rotation, or every configured upstream on every query.
#[derive(Clone, Copy, PartialEq, Eq, Structural, Debug)]
pub enum ResolutionStrategy {
    RoundRobin,
    All,
}

/// The upstream selector: a fixed, ordered list of upstream addresses, the
/// strategy chosen at construction, and the rotation counter that the
/// round-robin strategy advances.
pub struct DNSResolver {
    pub upstream: Vec<Addr>,
    pub strategy: ResolutionStrategy,
    pub counter: u16,
}

/// The upstream index a round-robin selection picks for a given counter.
pub open spec fn rr_index(counter: u16, n: int) -> int {
    counter as int % n
}

/// A 16-bit counter advanced by one, wrapping.
pub open spec fn wrap_inc(c: u16) -> u16 {
    if c == 0xffff {
        0
    } else {
        (c + 1) as u16
    }
}

/// The addresses one selection returns: a single upstream in rotation for
/// round-robin, the whole configured list in order for fan-out.
pub open spec fn selection_targets(ups: Seq<Addr>, strategy: ResolutionStrategy, counter: u16) -> Seq<
    Addr,
> {
    match strategy {
        ResolutionStrategy::RoundRobin => seq![ups[rr_index(counter, ups.len() as int)]],
        ResolutionStrategy::All => ups,
    }
}

/// The rotation counter after one selection: advanced (wrapping) by
/// round-robin, untouched by fan-out.
pub open spec fn counter_after(strategy: ResolutionStrategy, counter: u16) -> u16 {
    match strategy {
        ResolutionStrategy::RoundRobin => wrap_inc(counter),
        ResolutionStrategy::All => counter,
    }
}

/// Whether `a` is one of the configured upstream addresses.
pub open spec fn is_upstream_addr(ups: Seq<Addr>, a: Addr) -> bool {
    exists|i: int| 0 <= i < ups.len() && ups[i] == a
}

impl DNSResolver {
    pub fn new(upstream: Vec<Addr>, strategy: ResolutionStrategy) -> (r: DNSResolver)
        ensures
            r.upstream == upstream,
            r.strategy == strategy,
            r.counter == 0,
    {
        DNSResolver { upstream, strategy, counter: 0 }
    }

    /// Whether a datagram arriving from `a` came from a configured upstream,
    /// and is therefore a reply rather than a fresh client query.
    pub fn contains_upstream(&self, a: Addr) -> (r: bool)
        ensures
            r == is_upstream_addr(self.upstream@, a),
    {
        let mut i: usize = 0;
        while i < self.upstream.len()
            invariant
                i <= self.upstream.len(),
                forall|j: int| 0 <= j < i ==> self.upstream@[j] != a,
            decreases self.upstream.len() - i,
        {
            if self.upstream[i] == a {
                proof {
                    assert(is_upstream_addr(self.upstream@, a)) by {
                        assert(self.upstream@[i as int] == a);
                    }
                }
                return true;
            }
            i = i + 1;
        }
        false
    }

    /// Decides which upstream address(es) receive the next outbound query.
    ///
    /// Round-robin returns exactly one address, the one at `counter` modulo
    /// the list length, and advances the counter; fan-out returns every
    /// configured address in order and leaves the counter alone. The result
    /// is never empty: an empty upstream set is a configuration error that
    /// callers must reject at startup.
    pub fn produce_upstreams(&mut self) -> (r: Vec<Addr>)
        requires
            old(self).upstream.len() > 0,
        ensures
            r@ =~= selection_targets(old(self).upstream@, old(self).strategy, old(self).counter),
            final(self).upstream == old(self).upstream,
            final(self).strategy == old(self).strategy,
            final(self).counter == counter_after(old(self).strategy, old(self).counter),
            r.len() > 0,
    {
        match self.strategy {
            ResolutionStrategy::All => {
                let mut r: Vec<Addr> = Vec::new();
                let mut i: usize = 0;
                while i < self.upstream.len()
                    invariant
                        i <= self.upstream.len(),
                        r@ =~= self.upstream@.take(i as int),
                    decreases self.upstream.len() - i,
                {
                    r.push(self.upstream[i]);
                    i = i + 1;
                }
                proof {
                    assert(r@ =~= self.upstream@);
                }
                r
            },
            ResolutionStrategy::RoundRobin => {
                let i = (self.counter as usize) % self.upstream.len();
                let chosen = self.upstream[i];
                self.counter = if self.counter == 0xffff {
                    0
                } else {
                    self.counter + 1
                };
                let mut r: Vec<Addr> = Vec::new();
                r.push(chosen);
                r
            },
        }
    }
}

/// Round-robin selection is cyclic. Starting from counter `c0`, with `n`
/// upstreams, the `i`-th of `n` consecutive selections picks index
/// `(rr_index(c0, n) + i) % n`: the indices advance through the list in
/// configured order, no two of the `n` selections pick the same index, and
/// the `(n + 1)`-th selection repeats the first. Stated for windows in which
/// the 16-bit counter does not wrap (`c0 + n <= 0xffff`); across a wrap of
/// the counter the rotation restarts at index zero instead.
pub proof fn lemma_round_robin_cycle(c0: u16, n: int)
    requires
        1 <= n,
        c0 + n <= 0xffff,
    ensures
        forall|i: int|
            0 <= i < n ==> #[trigger] rr_index((c0 + i) as u16, n) == (rr_index(c0, n) + i) % n,
        forall|i: int, j: int|
            0 <= i < j < n ==> #[trigger] rr_index((c0 + i) as u16, n) != #[trigger] rr_index(
                (c0 + j) as u16,
                n,
            ),
        rr_index((c0 + n) as u16, n) == rr_index(c0, n),
{
    assert forall|i: int| 0 <= i < n implies #[trigger] rr_index((c0 + i) as u16, n) == (rr_index(
        c0,
        n,
    ) + i) % n by {
        vstd::arithmetic::div_mod::lemma_add_mod_noop(c0 as int, i, n);
        vstd::arithmetic::div_mod::lemma_small_mod(i as nat, n as nat);
    }
    assert forall|i: int, j: int| 0 <= i < j < n implies #[trigger] rr_index((c0 + i) as u16, n)
        != #[trigger] rr_index((c0 + j) as u16, n) by {
        if rr_index((c0 + i) as u16, n) == rr_index((c0 + j) as u16, n) {
            vstd::arithmetic::div_mod::lemma_mod_equivalence(c0 + i, c0 + j, n);
            vstd::arithmetic::div_mod::lemma_fundamental_div_mod_converse(i - j, n, -1, i - j + n);
        }
    }
    assert(rr_index((c0 + n) as u16, n) == rr_index(c0, n)) by {
        vstd::arithmetic::div_mod::lemma_mod_add_multiples_vanish(c0 as int, n);
    }
}

/// Fan-out selection is stable: every selection returns the whole configured
/// upstream list in order and leaves the selector state unchanged, so any
/// number of consecutive selections return the same full list.
pub proof fn lemma_fanout_stable(ups: Seq<Addr>, c: u16)
    ensures
        selection_targets(ups, ResolutionStrategy::All, c) == ups,
        counter_after(ResolutionStrategy::All, c) == c,
{
}

impl Default for DNSResolver {
    /// An empty selector: no upstreams, round-robin, counter at zero. Not
    /// usable for selection until upstreams are configured.
    fn default() -> (r: Self)
        ensures
            r.upstream@ =~= Seq::<Addr>::empty(),
            r.strategy is RoundRobin,
            r.counter == 0,
    {
        DNSResolver { upstream: Vec::new(), strategy: ResolutionStrategy::RoundRobin, counter: 0 }
    }
}

} // verus!
