use bandwith::clock::Span;
use bandwith::dns::cache::{is_public_ip, CacheConfig, DnsExpiry};
use bandwith::dns::{
    first_ptr_name, on_lookup_done, on_request, reverse_dns_name, CacheWrite, ResolveRequest, ResolverConfig2,
    WorkerAction,
};
use bandwith::net::{IpAddr, SocketAddr};

#[test]
fn skips_private_ipv4() {
    assert!(!is_public_ip(IpAddr::v4(10, 0, 0, 1)));
    assert!(!is_public_ip(IpAddr::v4(192, 168, 1, 1)));
    assert!(!is_public_ip(IpAddr::v4(172, 16, 0, 1)));
    assert!(!is_public_ip(IpAddr::v4(127, 0, 0, 1)));
    assert!(!is_public_ip(IpAddr::v4(169, 254, 0, 1)));
    assert!(!is_public_ip(IpAddr::v4(224, 0, 0, 1)));
    assert!(!is_public_ip(IpAddr::v4(0, 0, 0, 0)));
    assert!(!is_public_ip(IpAddr::v4(192, 0, 2, 1)));
}

#[test]
fn allows_public_ipv4() {
    assert!(is_public_ip(IpAddr::v4(1, 1, 1, 1)));
    assert!(is_public_ip(IpAddr::v4(8, 8, 8, 8)));
    assert!(is_public_ip(IpAddr::v4(142, 250, 80, 46)));
}

#[test]
fn skips_private_ipv6() {
    assert!(!is_public_ip(IpAddr::V6(1)));
    assert!(!is_public_ip(IpAddr::V6(0)));
}

#[test]
fn allows_public_ipv6() {
    assert!(is_public_ip(IpAddr::v6([0x2606, 0x4700, 0x4700, 0, 0, 0, 0, 0x1111])));
}

#[test]
fn reverse_name_v4() {
    let n = reverse_dns_name(&IpAddr::v4(1, 1, 1, 1));
    assert_eq!(n, "1.1.1.1.in-addr.arpa");
}

#[test]
fn reverse_name_v6() {
    let n = reverse_dns_name(&IpAddr::v6([0x2606, 0x4700, 0x4700, 0, 0, 0, 0, 0x1111]));
    assert!(n.ends_with(".ip6.arpa"));
    assert_eq!(n, "1.1.1.1.0.0.0.0.0.0.0.0.0.0.0.0.0.0.0.0.0.0.7.4.0.0.7.4.6.0.6.2.ip6.arpa");
}

#[test]
fn reverse_name_v4_reverses_octets_in_decimal() {
    assert_eq!(reverse_dns_name(&IpAddr::v4(192, 0, 2, 255)), "255.2.0.192.in-addr.arpa");
    assert_eq!(reverse_dns_name(&IpAddr::v4(0, 10, 100, 7)), "7.100.10.0.in-addr.arpa");
}

#[test]
fn other_special_ranges_are_skipped() {
    assert!(!is_public_ip(IpAddr::v4(255, 255, 255, 255)));
    assert!(!is_public_ip(IpAddr::v4(198, 51, 100, 3)));
    assert!(!is_public_ip(IpAddr::v4(203, 0, 113, 9)));
    assert!(!is_public_ip(IpAddr::v4(239, 255, 255, 250)));
    assert!(is_public_ip(IpAddr::v4(240, 0, 0, 1)));
    assert!(is_public_ip(IpAddr::v4(172, 32, 0, 1)));
    assert!(!is_public_ip(IpAddr::v6([0xfd12, 0, 0, 0, 0, 0, 0, 1])));
    assert!(!is_public_ip(IpAddr::v6([0xfe80, 0, 0, 0, 0, 0, 0, 1])));
    assert!(is_public_ip(IpAddr::v6([0xfec0, 0, 0, 0, 0, 0, 0, 1])));
}

#[test]
fn ttl_depends_on_answer() {
    let cfg = CacheConfig::default();
    assert_eq!(cfg.max_capacity, 5_000);
    let e = DnsExpiry::new(&cfg);
    assert_eq!(e.expire_after_create(&Some("x".to_string())), Span { secs: 86_400, nanos: 0 });
    assert_eq!(e.expire_after_create(&None), Span { secs: 300, nanos: 0 });
    let custom = CacheConfig { max_ttl: Span { secs: 1, nanos: 500_000_000 }, ..CacheConfig::default() };
    assert_eq!(DnsExpiry::new(&custom).expire_after_create(&Some("y".to_string())).nanos, 500_000_000);
}

#[test]
fn resolver_defaults() {
    let c = ResolverConfig2::default();
    assert_eq!(c.servers, vec![
        SocketAddr { ip: IpAddr::v4(1, 1, 1, 1), port: 53 },
        SocketAddr { ip: IpAddr::v4(1, 0, 0, 1), port: 53 },
    ]);
    assert_eq!(c.timeout, Span::from_secs(3));
    assert_eq!(c.cache.negative_ttl, Span::from_secs(300));
    assert_eq!(c.cache.min_ttl, Span::from_secs(3_600));
}

#[test]
fn worker_answers_cached_names_and_looks_up_the_rest() {
    let ip = IpAddr::v4(1, 1, 1, 1);
    match on_request(ResolveRequest { ip }, Some(Some("one".to_string()))) {
        WorkerAction::Reply(r) => {
            assert_eq!(r.ip, ip);
            assert_eq!(r.name.as_deref(), Some("one"));
        },
        WorkerAction::Lookup(_) => panic!("cached name should be answered"),
    }
    assert!(matches!(on_request(ResolveRequest { ip }, Some(None)), WorkerAction::Lookup(x) if x == ip));
    assert!(matches!(on_request(ResolveRequest { ip }, None), WorkerAction::Lookup(x) if x == ip));
    let (w, r) = on_lookup_done(ip, Some("n".to_string()));
    assert!(matches!(w, CacheWrite::Positive(x, ref s) if x == ip && s == "n"));
    assert_eq!(r.name.as_deref(), Some("n"));
    let (w, r) = on_lookup_done(ip, None);
    assert!(matches!(w, CacheWrite::Negative(x) if x == ip));
    assert!(r.name.is_none());
}

#[test]
fn first_ptr_name_skips_other_records() {
    assert_eq!(first_ptr_name(&vec![None, Some("a.".to_string()), Some("b.".to_string())]), Some("a.".to_string()));
    assert_eq!(first_ptr_name(&vec![None, None]), None);
    assert_eq!(first_ptr_name(&vec![]), None);
}
