//! IP addresses held as plain integers, with the address classes that the
//! monitor needs (private, loopback, link-local, ...).
//!
//! An IPv4 address is its 32-bit big-endian value (`a.b.c.d` is
//! `a * 2^24 + b * 2^16 + c * 2^8 + d`); an IPv6 address is its 128-bit
//! big-endian value.

use vstd::prelude::*;

verus! {

/// An IP address, version 4 or 6, as its big-endian integer value.
#[derive(Clone, Copy, Debug, PartialEq, Eq, Hash, Structural)]
pub enum IpAddr {
    V4(u32),
    V6(u128),
}

/// A socket address: an IP address and a port.
#[derive(Clone, Copy, Debug, PartialEq, Eq, Hash, Structural)]
pub struct SocketAddr {
    pub ip: IpAddr,
    pub port: u16,
}

/// `b` to the power `n`.
pub open spec fn power(b: int, n: nat) -> int
    decreases n,
{
    if n == 0 {
        1
    } else {
        power(b, (n - 1) as nat) * b
    }
}

/// The value of a sequence of digits in base `base`, most significant first.
pub open spec fn big_endian(digits: Seq<int>, base: int) -> int
    decreases digits.len(),
{
    if digits.len() == 0 {
        0
    } else {
        big_endian(digits.drop_last(), base) * base + digits.last()
    }
}

/// Bytes as integer digits.
pub open spec fn byte_digits(bytes: Seq<u8>) -> Seq<int> {
    bytes.map_values(|b: u8| b as int)
}

/// 16-bit words as integer digits.
pub open spec fn word_digits(words: Seq<u16>) -> Seq<int> {
    words.map_values(|w: u16| w as int)
}

/// A number written with `n` digits below `base` is below `base^n`.
pub proof fn lemma_big_endian_bound(digits: Seq<int>, base: int)
    requires
        base >= 1,
        forall|i: int| 0 <= i < digits.len() ==> 0 <= #[trigger] digits[i] < base,
    ensures
        0 <= big_endian(digits, base) < power(base, digits.len()),
    decreases digits.len(),
{
    if digits.len() > 0 {
        let init = digits.drop_last();
        assert forall|i: int| 0 <= i < init.len() implies 0 <= #[trigger] init[i] < base by {
            assert(init[i] == digits[i]);
        }
        lemma_big_endian_bound(init, base);
        let v = big_endian(init, base);
        let p = power(base, init.len());
        let d = digits.last();
        assert(digits[digits.len() - 1] == d);
        assert(0 <= v * base + d < p * base) by (nonlinear_arith)
            requires
                0 <= v < p,
                0 <= d < base,
        ;
    }
}

/// The four octets of an IPv4 address, most significant first.
pub open spec fn v4_octet(v: u32, i: int) -> int {
    if i == 0 {
        v as int / 0x100_0000
    } else if i == 1 {
        (v as int / 0x1_0000) % 0x100
    } else if i == 2 {
        (v as int / 0x100) % 0x100
    } else {
        v as int % 0x100
    }
}

/// The IPv4 address `a.b.c.d`.
pub open spec fn v4_value(a: int, b: int, c: int, d: int) -> int {
    a * 0x100_0000 + b * 0x1_0000 + c * 0x100 + d
}

/// The first (most significant) 16-bit segment of an IPv6 address.
pub open spec fn v6_first_segment(v: u128) -> u16 {
    (v as int / 0x1_0000_0000_0000_0000_0000_0000_0000) as u16
}

/// `10.0.0.0/8`, `172.16.0.0/12` and `192.168.0.0/16` (RFC 1918).
pub open spec fn v4_is_private(v: u32) -> bool {
    ||| v4_octet(v, 0) == 10
    ||| (v4_octet(v, 0) == 172 && 16 <= v4_octet(v, 1) <= 31)
    ||| (v4_octet(v, 0) == 192 && v4_octet(v, 1) == 168)
}

/// `127.0.0.0/8`.
pub open spec fn v4_is_loopback(v: u32) -> bool {
    v4_octet(v, 0) == 127
}

/// `169.254.0.0/16`.
pub open spec fn v4_is_link_local(v: u32) -> bool {
    v4_octet(v, 0) == 169 && v4_octet(v, 1) == 254
}

/// `255.255.255.255`.
pub open spec fn v4_is_broadcast(v: u32) -> bool {
    v == 0xffff_ffff
}

/// `192.0.2.0/24`, `198.51.100.0/24` and `203.0.113.0/24` (RFC 5737).
pub open spec fn v4_is_documentation(v: u32) -> bool {
    ||| (v4_octet(v, 0) == 192 && v4_octet(v, 1) == 0 && v4_octet(v, 2) == 2)
    ||| (v4_octet(v, 0) == 198 && v4_octet(v, 1) == 51 && v4_octet(v, 2) == 100)
    ||| (v4_octet(v, 0) == 203 && v4_octet(v, 1) == 0 && v4_octet(v, 2) == 113)
}

/// `0.0.0.0`.
pub open spec fn v4_is_unspecified(v: u32) -> bool {
    v == 0
}

/// `224.0.0.0/4` (RFC 5771).
pub open spec fn v4_is_multicast(v: u32) -> bool {
    224 <= v4_octet(v, 0) <= 239
}

/// `::1`.
pub open spec fn v6_is_loopback(v: u128) -> bool {
    v == 1
}

/// `::`.
pub open spec fn v6_is_unspecified(v: u128) -> bool {
    v == 0
}

/// `fc00::/7` (RFC 4193).
pub open spec fn v6_is_unique_local(v: u128) -> bool {
    (v6_first_segment(v) & 0xfe00u16) == 0xfc00u16
}

/// `fe80::/10` (RFC 4291).
pub open spec fn v6_is_unicast_link_local(v: u128) -> bool {
    (v6_first_segment(v) & 0xffc0u16) == 0xfe80u16
}

impl IpAddr {
    /// The IPv4 address `a.b.c.d`.
    pub fn v4(a: u8, b: u8, c: u8, d: u8) -> (ip: IpAddr)
        ensures
            ip == IpAddr::V4(v4_value(a as int, b as int, c as int, d as int) as u32),
            v4_octet(v4_value(a as int, b as int, c as int, d as int) as u32, 0) == a,
            v4_octet(v4_value(a as int, b as int, c as int, d as int) as u32, 1) == b,
            v4_octet(v4_value(a as int, b as int, c as int, d as int) as u32, 2) == c,
            v4_octet(v4_value(a as int, b as int, c as int, d as int) as u32, 3) == d,
    {
        let v: u32 = (a as u32) * 0x100_0000 + (b as u32) * 0x1_0000 + (c as u32) * 0x100 + (d as u32);
        IpAddr::V4(v)
    }

    /// The IPv6 address with the eight 16-bit segments `segments`, most
    /// significant first.
    pub fn v6(segments: [u16; 8]) -> (ip: IpAddr)
        ensures
            ip == IpAddr::V6(big_endian(word_digits(segments@), 0x1_0000) as u128),
    {
        let mut acc: u128 = 0;
        let mut i: usize = 0;
        let ghost digits = word_digits(segments@);
        proof {
            assert forall|k: int| 0 <= k < digits.len() implies 0 <= #[trigger] digits[k] < 0x1_0000 by {}
            reveal_with_fuel(power, 9);
            assert(power(0x1_0000, 8) == 0x1_0000_0000_0000_0000_0000_0000_0000_0000);
        }
        while i < 8
            invariant
                0 <= i <= 8,
                digits == word_digits(segments@),
                digits.len() == 8,
                forall|k: int| 0 <= k < digits.len() ==> 0 <= #[trigger] digits[k] < 0x1_0000,
                power(0x1_0000, 8) == 0x1_0000_0000_0000_0000_0000_0000_0000_0000,
                acc as int == big_endian(digits.take(i as int), 0x1_0000),
            decreases 8 - i,
        {
            let ghost pre = digits.take(i as int);
            let ghost next = digits.take(i as int + 1);
            proof {
                assert(next.drop_last() =~= pre);
                assert forall|k: int| 0 <= k < next.len() implies 0 <= #[trigger] next[k] < 0x1_0000 by {
                    assert(next[k] == digits[k]);
                }
                lemma_big_endian_bound(next, 0x1_0000);
                lemma_power_monotone(0x1_0000, next.len(), 8);
            }
            acc = acc * 0x1_0000 + segments[i] as u128;
            i = i + 1;
        }
        assert(digits.take(8) =~= digits);
        IpAddr::V6(acc)
    }

    /// The octets of an IPv4 address.
    pub fn v4_octets(v: u32) -> (o: (u8, u8, u8, u8))
        ensures
            o.0 == v4_octet(v, 0),
            o.1 == v4_octet(v, 1),
            o.2 == v4_octet(v, 2),
            o.3 == v4_octet(v, 3),
    {
        ((v / 0x100_0000) as u8, ((v / 0x1_0000) % 0x100) as u8, ((v / 0x100) % 0x100) as u8, (v % 0x100) as u8)
    }
}

/// Powers of a base of at least one grow with the exponent.
pub proof fn lemma_power_monotone(b: int, m: nat, n: nat)
    requires
        b >= 1,
        m <= n,
    ensures
        1 <= power(b, m) <= power(b, n),
    decreases n,
{
    if n > m {
        lemma_power_monotone(b, m, (n - 1) as nat);
        let p = power(b, (n - 1) as nat);
        assert(p <= p * b) by (nonlinear_arith)
            requires
                p >= 1,
                b >= 1,
        ;
    } else if n > 0 {
        lemma_power_monotone(b, 0, (n - 1) as nat);
        let p = power(b, (n - 1) as nat);
        assert(1 <= p * b) by (nonlinear_arith)
            requires
                p >= 1,
                b >= 1,
        ;
    }
}

} // verus!
