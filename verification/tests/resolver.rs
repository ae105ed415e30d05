use dns_relay::addr::Addr;
use dns_relay::resolver::{DNSResolver, ResolutionStrategy};

#[test]
fn test_round_robin() {
    let upstream = vec![Addr::new(1, 1, 1, 1, 53), Addr::new(1, 0, 0, 1, 53)];
    let mut resolver = DNSResolver::new(upstream.clone(), ResolutionStrategy::RoundRobin);
    assert_eq!(vec![upstream[0]], resolver.produce_upstreams());
    assert_eq!(vec![upstream[1]], resolver.produce_upstreams());
    assert_eq!(vec![upstream[0]], resolver.produce_upstreams());
}

#[test]
fn test_all() {
    let upstream = vec![Addr::new(1, 1, 1, 1, 53), Addr::new(1, 0, 0, 1, 53)];
    let mut resolver = DNSResolver::new(upstream.clone(), ResolutionStrategy::All);
    assert_eq!(upstream, resolver.produce_upstreams());
    assert_eq!(upstream, resolver.produce_upstreams());
    assert_eq!(upstream, resolver.produce_upstreams());
}

#[test]
fn test_default_selector() {
    let resolver = DNSResolver::default();
    assert!(resolver.upstream.is_empty());
    assert_eq!(resolver.strategy, ResolutionStrategy::RoundRobin);
    assert_eq!(resolver.counter, 0);
}

// The rotation counter wraps at 2^16, not at the list length: with three
// upstreams the 65536th selection picks index 65535 % 3 == 0, the counter
// wraps to zero, and the next selection picks index 0 again.
#[test]
fn test_round_robin_counter_wrap() {
    let upstream = vec![
        Addr::new(1, 1, 1, 1, 53),
        Addr::new(1, 0, 0, 1, 53),
        Addr::new(9, 9, 9, 9, 53),
    ];
    let mut resolver = DNSResolver::new(upstream.clone(), ResolutionStrategy::RoundRobin);
    for i in 0..65535u32 {
        let picked = resolver.produce_upstreams();
        assert_eq!(vec![upstream[(i % 3) as usize]], picked);
    }
    // counter is now 65535; 65535 % 3 == 0
    assert_eq!(vec![upstream[0]], resolver.produce_upstreams());
    // counter wrapped to 0: index 0 repeats
    assert_eq!(vec![upstream[0]], resolver.produce_upstreams());
    assert_eq!(vec![upstream[1]], resolver.produce_upstreams());
}
