//! Reverse-DNS resolution: resolver settings, requests and results, the
//! PTR query name of an address, and the decisions of the resolving worker.

pub mod cache;

use vstd::prelude::*;

use crate::clock::Span;
use crate::net::{v4_octet, v4_value, IpAddr, SocketAddr};
use crate::text::{decimal, hex_digit, hex_digit_char, hex_value, law_hex_digit_lowercase, push_char, push_decimal};

pub use cache::{is_public_ip, public_ip, CacheConfig, DnsExpiry};

verus! {

/// Settings of the resolver: the name servers, the per-lookup timeout, and
/// the cache limits.
#[derive(Clone, Debug)]
pub struct ResolverConfig2 {
    pub servers: Vec<SocketAddr>,
    pub timeout: Span,
    pub cache: CacheConfig,
}

impl Default for ResolverConfig2 {
    /// Cloudflare's two resolvers on port 53, a three-second timeout and the
    /// default cache.
    fn default() -> (c: Self)
        ensures
            c.servers@ == seq![
                SocketAddr { ip: IpAddr::V4(v4_value(1, 1, 1, 1) as u32), port: 53u16 },
                SocketAddr { ip: IpAddr::V4(v4_value(1, 0, 0, 1) as u32), port: 53u16 },
            ],
            c.timeout == (Span { secs: 3u64, nanos: 0u32 }),
            c.cache.max_capacity == 5_000,
            c.cache.min_ttl == (Span { secs: 3_600u64, nanos: 0u32 }),
            c.cache.max_ttl == (Span { secs: 86_400u64, nanos: 0u32 }),
            c.cache.negative_ttl == (Span { secs: 300u64, nanos: 0u32 }),
    {
        let mut servers: Vec<SocketAddr> = Vec::new();
        servers.push(SocketAddr { ip: IpAddr::v4(1, 1, 1, 1), port: 53 });
        servers.push(SocketAddr { ip: IpAddr::v4(1, 0, 0, 1), port: 53 });
        ResolverConfig2 { servers, timeout: Span::from_secs(3), cache: CacheConfig::default() }
    }
}

/// A request to resolve one address.
#[derive(Clone, Copy, Debug)]
pub struct ResolveRequest {
    pub ip: IpAddr,
}

/// The outcome of resolving one address: its name, or `None`.
#[derive(Clone, Debug)]
pub struct ResolveResult {
    pub ip: IpAddr,
    pub name: Option<String>,
}

/// `v` shifted right by `i` hexadecimal digits.
pub open spec fn shift_nibbles(v: int, i: nat) -> int
    decreases i,
{
    if i == 0 {
        v
    } else {
        shift_nibbles(v, (i - 1) as nat) / 16
    }
}

/// The `i`-th hexadecimal digit of `v`, counted from the least significant.
pub open spec fn nibble(v: int, i: nat) -> int {
    shift_nibbles(v, i) % 16
}

/// The first `n` hexadecimal digits of `v`, least significant first, each
/// followed by a dot.
pub open spec fn dotted_nibbles(v: int, n: nat) -> Seq<char>
    decreases n,
{
    if n == 0 {
        Seq::empty()
    } else {
        dotted_nibbles(v, (n - 1) as nat) + seq![hex_digit(nibble(v, (n - 1) as nat)), '.']
    }
}

/// The PTR query name of an address: `d.c.b.a.in-addr.arpa` for `a.b.c.d`,
/// and the 32 nibbles of an IPv6 address in reverse order, dotted, under
/// `ip6.arpa`.
pub open spec fn reverse_name(ip: IpAddr) -> Seq<char> {
    match ip {
        IpAddr::V4(v) => decimal(v4_octet(v, 3) as nat) + "."@ + decimal(v4_octet(v, 2) as nat)
            + "."@ + decimal(v4_octet(v, 1) as nat) + "."@ + decimal(v4_octet(v, 0) as nat)
            + ".in-addr.arpa"@,
        IpAddr::V6(v) => dotted_nibbles(v as int, 32) + "ip6.arpa"@,
    }
}

/// The `n` dotted nibbles are `2 * n` characters: for each `i < n` the
/// hexadecimal digit of nibble `i`, then a dot.
pub proof fn lemma_dotted_nibbles(v: int, n: nat)
    ensures
        dotted_nibbles(v, n).len() == 2 * n,
        forall|i: int|
            0 <= i < n ==> #[trigger] dotted_nibbles(v, n)[2 * i] == hex_digit(nibble(v, i as nat))
                && dotted_nibbles(v, n)[2 * i + 1] == '.',
    decreases n,
{
    if n > 0 {
        lemma_dotted_nibbles(v, (n - 1) as nat);
        let prev = dotted_nibbles(v, (n - 1) as nat);
        assert forall|i: int| 0 <= i < n implies #[trigger] dotted_nibbles(v, n)[2 * i] == hex_digit(
            nibble(v, i as nat),
        ) && dotted_nibbles(v, n)[2 * i + 1] == '.' by {
            if i < n - 1 {
                assert(dotted_nibbles(v, n)[2 * i] == prev[2 * i]);
                assert(dotted_nibbles(v, n)[2 * i + 1] == prev[2 * i + 1]);
            }
        }
    }
}

/// The IPv6 query name is 32 labels then `ip6.arpa`: label `i` (counted
/// from the start of the name) is the lowercase hexadecimal digit of nibble
/// `i` of the address counted from the least significant, so reading each
/// label as hexadecimal gives back the address's nibbles in reverse order.
pub proof fn law_reverse_name_v6_labels(v: u128, i: int)
    requires
        0 <= i < 32,
    ensures
        reverse_name(IpAddr::V6(v)).len() == 72,
        reverse_name(IpAddr::V6(v)).subrange(64, 72) == "ip6.arpa"@,
        reverse_name(IpAddr::V6(v))[2 * i + 1] == '.',
        hex_value(reverse_name(IpAddr::V6(v))[2 * i]) == nibble(v as int, i as nat),
        '0' as int <= reverse_name(IpAddr::V6(v))[2 * i] as int <= '9' as int || 'a' as int <= reverse_name(
            IpAddr::V6(v),
        )[2 * i] as int <= 'f' as int,
{
    reveal_strlit("ip6.arpa");
    lemma_dotted_nibbles(v as int, 32);
    let d = dotted_nibbles(v as int, 32);
    let name = reverse_name(IpAddr::V6(v));
    assert(name == d + "ip6.arpa"@);
    assert(name[2 * i] == d[2 * i]);
    assert(name[2 * i + 1] == d[2 * i + 1]);
    assert(name.subrange(64, 72) =~= "ip6.arpa"@);
    let x = nibble(v as int, i as nat);
    assert(0 <= x < 16);
    law_hex_digit_lowercase(x);
}

/// Builds the reverse-lookup query name of `ip`.
pub fn reverse_dns_name(ip: &IpAddr) -> (name: String)
    ensures
        name@ == reverse_name(*ip),
{
    match ip {
        IpAddr::V4(v) => {
            let (a, b, c, d) = IpAddr::v4_octets(*v);
            let mut s = String::new();
            push_decimal(&mut s, d as u64);
            s.append(".");
            push_decimal(&mut s, c as u64);
            s.append(".");
            push_decimal(&mut s, b as u64);
            s.append(".");
            push_decimal(&mut s, a as u64);
            s.append(".in-addr.arpa");
            s
        },
        IpAddr::V6(v) => {
            let mut s = String::new();
            let mut cur: u128 = *v;
            let mut i: usize = 0;
            while i < 32
                invariant
                    0 <= i <= 32,
                    cur as int == shift_nibbles(*v as int, i as nat),
                    s@ == dotted_nibbles(*v as int, i as nat),
                decreases 32 - i,
            {
                let digit = hex_digit_char((cur % 16) as u64);
                push_char(&mut s, digit);
                push_char(&mut s, '.');
                cur = cur / 16;
                i = i + 1;
                assert(s@ =~= dotted_nibbles(*v as int, i as nat));
            }
            s.append("ip6.arpa");
            s
        },
    }
}

/// What the resolving worker does with a request.
#[derive(Clone, Debug)]
pub enum WorkerAction {
    /// Answer at once from the cache.
    Reply(ResolveResult),
    /// Query the name servers for this address.
    Lookup(IpAddr),
}

/// What the worker writes into the cache after a lookup.
#[derive(Clone, Debug)]
pub enum CacheWrite {
    Positive(IpAddr, String),
    Negative(IpAddr),
}

/// The worker's decision on a request, given what the cache holds for the
/// address: a cached name is answered at once; a cached negative answer or
/// a miss is looked up again.
pub fn on_request(req: ResolveRequest, cached: Option<Option<String>>) -> (a: WorkerAction)
    ensures
        match cached {
            Some(Some(name)) => a == WorkerAction::Reply(ResolveResult { ip: req.ip, name: Some(name) }),
            _ => a == WorkerAction::Lookup(req.ip),
        },
{
    match cached {
        Some(Some(name)) => WorkerAction::Reply(ResolveResult { ip: req.ip, name: Some(name) }),
        _ => WorkerAction::Lookup(req.ip),
    }
}

/// What the worker does once a lookup for `ip` finished with `name`: the
/// cache write (positive when a name was found, negative otherwise) and the
/// result it sends.
pub fn on_lookup_done(ip: IpAddr, name: Option<String>) -> (out: (CacheWrite, ResolveResult))
    ensures
        out.1 == (ResolveResult { ip, name }),
        match name {
            Some(n) => out.0 == CacheWrite::Positive(ip, n),
            None => out.0 == CacheWrite::Negative(ip),
        },
{
    match name {
        Some(n) => (CacheWrite::Positive(ip, n.clone()), ResolveResult { ip, name: Some(n) }),
        None => (CacheWrite::Negative(ip), ResolveResult { ip, name: None }),
    }
}

/// The first PTR name among the answers of a lookup, where each answer is
/// `Some(name)` for a PTR record and `None` for any other record.
pub fn first_ptr_name(answers: &Vec<Option<String>>) -> (name: Option<String>)
    ensures
        match name {
            Some(n) => exists|i: int|
                0 <= i < answers@.len() && answers@[i] == Some(n) && forall|j: int| 0 <= j < i ==> answers@[j] is None,
            None => forall|j: int| 0 <= j < answers@.len() ==> answers@[j] is None,
        },
{
    let mut i: usize = 0;
    while i < answers.len()
        invariant
            0 <= i <= answers@.len(),
            forall|j: int| 0 <= j < i ==> answers@[j] is None,
        decreases answers@.len() - i,
    {
        match &answers[i] {
            Some(n) => {
                let r = n.clone();
                return Some(r);
            },
            None => {},
        }
        i = i + 1;
    }
    None
}

} // verus!
