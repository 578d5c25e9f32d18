//! Reverse-DNS cache policy: which addresses are worth resolving, the cache
//! limits, and how long a positive or negative answer is kept.

use vstd::prelude::*;

use crate::clock::Span;
use crate::net::{
    v4_is_broadcast, v4_is_documentation, v4_is_link_local, v4_is_loopback, v4_is_multicast,
    v4_is_private, v4_is_unspecified, v6_first_segment, v6_is_loopback, v6_is_unicast_link_local,
    v6_is_unique_local, v6_is_unspecified, IpAddr,
};

verus! {

/// Limits of the reverse-DNS cache.
#[derive(Clone, Debug)]
pub struct CacheConfig {
    pub max_capacity: u64,
    pub min_ttl: Span,
    pub max_ttl: Span,
    pub negative_ttl: Span,
}

impl Default for CacheConfig {
    /// 5 000 entries; one hour minimum, one day maximum, five minutes for
    /// negative answers.
    fn default() -> (c: Self)
        ensures
            c.max_capacity == 5_000,
            c.min_ttl == (Span { secs: 3_600u64, nanos: 0u32 }),
            c.max_ttl == (Span { secs: 86_400u64, nanos: 0u32 }),
            c.negative_ttl == (Span { secs: 300u64, nanos: 0u32 }),
    {
        CacheConfig {
            max_capacity: 5_000,
            min_ttl: Span::from_secs(60 * 60),
            max_ttl: Span::from_secs(60 * 60 * 24),
            negative_ttl: Span::from_secs(60 * 5),
        }
    }
}

/// The time-to-live policy of cache entries: positive answers live for
/// `positive_ttl`, negative ones (no name) for `negative_ttl`.
#[derive(Clone, Copy, Debug)]
pub struct DnsExpiry {
    pub positive_ttl: Span,
    pub negative_ttl: Span,
}

impl DnsExpiry {
    /// The policy of a cache configured with `cfg`.
    pub fn new(cfg: &CacheConfig) -> (e: DnsExpiry)
        ensures
            e.positive_ttl == cfg.max_ttl,
            e.negative_ttl == cfg.negative_ttl,
    {
        DnsExpiry { positive_ttl: cfg.max_ttl, negative_ttl: cfg.negative_ttl }
    }

    /// How long a freshly inserted entry holding `value` lives.
    pub fn expire_after_create(&self, value: &Option<String>) -> (ttl: Span)
        ensures
            ttl == (if value.is_some() { self.positive_ttl } else { self.negative_ttl }),
    {
        if value.is_some() {
            self.positive_ttl
        } else {
            self.negative_ttl
        }
    }
}

/// Whether an address is worth resolving: not private, loopback,
/// link-local, broadcast, documentation, unspecified or multicast (IPv4);
/// not loopback, unspecified, unique-local or link-local (IPv6).
pub open spec fn public_ip(ip: IpAddr) -> bool {
    match ip {
        IpAddr::V4(v) => {
            &&& !v4_is_private(v)
            &&& !v4_is_loopback(v)
            &&& !v4_is_link_local(v)
            &&& !v4_is_broadcast(v)
            &&& !v4_is_documentation(v)
            &&& !v4_is_unspecified(v)
            &&& !v4_is_multicast(v)
        },
        IpAddr::V6(v) => {
            &&& !v6_is_loopback(v)
            &&& !v6_is_unspecified(v)
            &&& !v6_is_unique_local(v)
            &&& !v6_is_unicast_link_local(v)
        },
    }
}

/// Whether an IP is worth resolving at all. Skips private, loopback,
/// link-local and other special-purpose ranges.
pub fn is_public_ip(ip: IpAddr) -> (b: bool)
    ensures
        b == public_ip(ip),
{
    match ip {
        IpAddr::V4(v) => {
            let (a, b, c, _d) = IpAddr::v4_octets(v);
            let private = a == 10 || (a == 172 && 16 <= b && b <= 31) || (a == 192 && b == 168);
            let loopback = a == 127;
            let link_local = a == 169 && b == 254;
            let broadcast = v == 0xffff_ffff;
            let documentation = (a == 192 && b == 0 && c == 2) || (a == 198 && b == 51 && c
                == 100) || (a == 203 && b == 0 && c == 113);
            let unspecified = v == 0;
            !private && !loopback && !link_local && !broadcast && !documentation && !unspecified
                && !is_v4_multicast(v)
        },
        IpAddr::V6(v) => { v != 1 && v != 0 && !is_v6_unique_local(v) && !is_v6_unicast_link_local(v) },
    }
}

/// The first 16-bit segment of an IPv6 address.
fn v6_segment0(v: u128) -> (s: u16)
    ensures
        s == v6_first_segment(v),
{
    (v / 0x1_0000_0000_0000_0000_0000_0000_0000) as u16
}

/// `fc00::/7`: RFC 4193 unique local addresses.
fn is_v6_unique_local(v: u128) -> (b: bool)
    ensures
        b == v6_is_unique_local(v),
{
    (v6_segment0(v) & 0xfe00) == 0xfc00
}

/// `fe80::/10`: RFC 4291 link-local unicast.
fn is_v6_unicast_link_local(v: u128) -> (b: bool)
    ensures
        b == v6_is_unicast_link_local(v),
{
    (v6_segment0(v) & 0xffc0) == 0xfe80
}

/// `224.0.0.0/4`: RFC 5771 IPv4 multicast.
fn is_v4_multicast(v: u32) -> (b: bool)
    ensures
        b == v4_is_multicast(v),
{
    let (a, _b, _c, _d) = IpAddr::v4_octets(v);
    a >= 0xe0 && a <= 0xef
}

} // verus!
