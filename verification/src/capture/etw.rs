//! Decoding of kernel network events: which events carry traffic, how their
//! fields become a `ConnEvent`, and the capture's process cache.

use vstd::prelude::*;

use crate::capture::flow::{lemma_trunc_div_bounds, trunc_div};
use crate::capture::process::{ProcInfo, ProcessCache, SnapshotError, snapshot_names};
use crate::capture::{ConnEvent, Direction, Proto};
use crate::net::{big_endian, byte_digits, lemma_big_endian_bound, lemma_power_monotone, power, v4_value, IpAddr};

verus! {

/// The capture's state before its event session starts: the process cache
/// filled from a first snapshot.
pub struct EtwCapture {
    proc_cache: ProcessCache,
}

impl EtwCapture {
    /// The known process names.
    pub closed spec fn names(&self) -> Map<u32, Seq<char>> {
        self.proc_cache.names()
    }

    /// A capture whose process cache holds the first snapshot; a failed
    /// snapshot leaves the cache empty, as capturing still works without
    /// names.
    pub fn new(snapshot: Result<Vec<ProcInfo>, SnapshotError>) -> (c: EtwCapture)
        ensures
            match snapshot {
                Ok(infos) => c.names() == snapshot_names(infos@),
                Err(_) => c.names() == Map::<u32, Seq<char>>::empty(),
            },
    {
        let mut proc_cache = ProcessCache::new();
        let _ = proc_cache.refresh(snapshot);
        EtwCapture { proc_cache }
    }

    /// The process cache, handed to the running session.
    pub fn into_proc_cache(self) -> (c: ProcessCache)
        ensures
            c.names() == self.names(),
    {
        self.proc_cache
    }
}

/// The provider of kernel network events.
pub const KERNEL_NETWORK_GUID: &'static str = "7DD42A49-5329-4832-8DFD-43D979153A88";

pub const EVENT_TCP_SEND: u16 = 12;
pub const EVENT_TCP_RECV: u16 = 13;
pub const EVENT_UDP_SEND: u16 = 26;
pub const EVENT_UDP_RECV: u16 = 27;
pub const EVENT_UDP_SEND_V6: u16 = 28;
pub const EVENT_UDP_RECV_V6: u16 = 29;
pub const EVENT_TCP_SEND_V6: u16 = 30;
pub const EVENT_TCP_RECV_V6: u16 = 31;

/// Milliseconds from 1601-01-01 (the FILETIME epoch) to 1970-01-01.
pub const FILETIME_UNIX_EPOCH_DELTA_MS: i64 = 11_644_473_600_000;

/// The protocol and direction of the traffic an event reports, for the
/// eight send and receive events; other events carry no traffic.
pub open spec fn event_kind(event_id: u16) -> Option<(Proto, Direction)> {
    if event_id == EVENT_TCP_SEND || event_id == EVENT_TCP_SEND_V6 {
        Some((Proto::Tcp, Direction::Out))
    } else if event_id == EVENT_TCP_RECV || event_id == EVENT_TCP_RECV_V6 {
        Some((Proto::Tcp, Direction::In))
    } else if event_id == EVENT_UDP_SEND || event_id == EVENT_UDP_SEND_V6 {
        Some((Proto::Udp, Direction::Out))
    } else if event_id == EVENT_UDP_RECV || event_id == EVENT_UDP_RECV_V6 {
        Some((Proto::Udp, Direction::In))
    } else {
        None
    }
}

/// The kernel network provider's traffic events: sends (TCP 12 and 30, UDP
/// 26 and 28, IPv4 then IPv6) carry bytes out, receives (TCP 13 and 31, UDP
/// 27 and 29) carry bytes in; every other event carries no traffic.
pub proof fn law_event_kind_table(event_id: u16)
    ensures
        event_id == 12 || event_id == 30 ==> event_kind(event_id) == Some((Proto::Tcp, Direction::Out)),
        event_id == 13 || event_id == 31 ==> event_kind(event_id) == Some((Proto::Tcp, Direction::In)),
        event_id == 26 || event_id == 28 ==> event_kind(event_id) == Some((Proto::Udp, Direction::Out)),
        event_id == 27 || event_id == 29 ==> event_kind(event_id) == Some((Proto::Udp, Direction::In)),
        !(event_id == 12 || event_id == 13 || event_id == 26 || event_id == 27 || event_id == 28 || event_id == 29
            || event_id == 30 || event_id == 31) ==> event_kind(event_id) is None,
        event_kind(event_id) matches Some((_, d)) ==> (d == Direction::In <==> (event_id == 13 || event_id == 27
            || event_id == 29 || event_id == 31)),
{
}

/// Classifies an event by its id.
pub fn classify_event(event_id: u16) -> (k: Option<(Proto, Direction)>)
    ensures
        k == event_kind(event_id),
        event_id == 12 || event_id == 30 ==> k == Some((Proto::Tcp, Direction::Out)),
        event_id == 13 || event_id == 31 ==> k == Some((Proto::Tcp, Direction::In)),
        event_id == 26 || event_id == 28 ==> k == Some((Proto::Udp, Direction::Out)),
        event_id == 27 || event_id == 29 ==> k == Some((Proto::Udp, Direction::In)),
        !(event_id == 12 || event_id == 13 || event_id == 26 || event_id == 27 || event_id == 28 || event_id == 29
            || event_id == 30 || event_id == 31) ==> k is None,
{
    if event_id == EVENT_TCP_SEND || event_id == EVENT_TCP_SEND_V6 {
        Some((Proto::Tcp, Direction::Out))
    } else if event_id == EVENT_TCP_RECV || event_id == EVENT_TCP_RECV_V6 {
        Some((Proto::Tcp, Direction::In))
    } else if event_id == EVENT_UDP_SEND || event_id == EVENT_UDP_SEND_V6 {
        Some((Proto::Udp, Direction::Out))
    } else if event_id == EVENT_UDP_RECV || event_id == EVENT_UDP_RECV_V6 {
        Some((Proto::Udp, Direction::In))
    } else {
        None
    }
}

/// An event timestamp (100-nanosecond units since 1601) as milliseconds
/// since the Unix epoch, in 64-bit truncating arithmetic.
pub open spec fn filetime_to_unix_ms(ts: i64) -> int {
    trunc_div(ts as int, 10_000) - FILETIME_UNIX_EPOCH_DELTA_MS
}

/// Converts an event timestamp to Unix milliseconds; `None` for a time
/// before the Unix epoch.
pub fn etw_ts_to_ms(ts: i64) -> (r: Option<i64>)
    ensures
        match r {
            Some(ms) => ms == filetime_to_unix_ms(ts) && ms >= 0,
            None => filetime_to_unix_ms(ts) < 0,
        },
{
    proof {
        lemma_trunc_div_bounds(ts as int, 10_000);
    }
    let q = ts.checked_div(10_000).unwrap();
    let ms = q - FILETIME_UNIX_EPOCH_DELTA_MS;
    if ms >= 0 {
        Some(ms)
    } else {
        None
    }
}

/// Whether 16 address bytes are an IPv4-mapped IPv6 address
/// (`::ffff:a.b.c.d`).
pub open spec fn is_v4_mapped(o: Seq<u8>) -> bool {
    &&& o.len() == 16
    &&& forall|i: int| 0 <= i < 10 ==> o[i] == 0
    &&& o[10] == 0xff
    &&& o[11] == 0xff
}

/// The address that raw address bytes hold: 4 bytes are IPv4; 16 bytes are
/// IPv6, or the IPv4 address they map; other lengths are no address.
pub open spec fn ip_from_bytes(b: Seq<u8>) -> Option<IpAddr> {
    if b.len() == 4 {
        Some(IpAddr::V4(v4_value(b[0] as int, b[1] as int, b[2] as int, b[3] as int) as u32))
    } else if b.len() == 16 {
        if is_v4_mapped(b) {
            Some(IpAddr::V4(v4_value(b[12] as int, b[13] as int, b[14] as int, b[15] as int) as u32))
        } else {
            Some(IpAddr::V6(big_endian(byte_digits(b), 256) as u128))
        }
    } else {
        None
    }
}

/// The IPv4 address an IPv4-mapped IPv6 address maps, if it is one.
pub fn ipv4_mapped(o: &[u8; 16]) -> (r: Option<IpAddr>)
    ensures
        match r {
            Some(ip) => is_v4_mapped(o@) && ip == IpAddr::V4(
                v4_value(o@[12] as int, o@[13] as int, o@[14] as int, o@[15] as int) as u32,
            ),
            None => !is_v4_mapped(o@),
        },
{
    let mut i: usize = 0;
    while i < 10
        invariant
            0 <= i <= 10,
            o@.len() == 16,
            forall|j: int| 0 <= j < i ==> o@[j] == 0,
        decreases 10 - i,
    {
        if o[i] != 0 {
            return None;
        }
        i = i + 1;
    }
    if o[10] == 0xff && o[11] == 0xff {
        Some(IpAddr::v4(o[12], o[13], o[14], o[15]))
    } else {
        None
    }
}

/// The big-endian value of 16 bytes.
fn be_u128(o: &[u8; 16]) -> (v: u128)
    ensures
        v == big_endian(byte_digits(o@), 256),
{
    let ghost digits = byte_digits(o@);
    proof {
        reveal_with_fuel(power, 17);
        assert(power(256, 16) == 0x1_0000_0000_0000_0000_0000_0000_0000_0000);
    }
    let mut acc: u128 = 0;
    let mut i: usize = 0;
    while i < 16
        invariant
            0 <= i <= 16,
            digits == byte_digits(o@),
            digits.len() == 16,
            power(256, 16) == 0x1_0000_0000_0000_0000_0000_0000_0000_0000,
            acc as int == big_endian(digits.take(i as int), 256),
        decreases 16 - i,
    {
        let ghost next = digits.take(i as int + 1);
        proof {
            assert(next.drop_last() =~= digits.take(i as int));
            assert forall|k: int| 0 <= k < next.len() implies 0 <= #[trigger] next[k] < 256 by {
                assert(next[k] == o@[k] as int);
            }
            lemma_big_endian_bound(next, 256);
            lemma_power_monotone(256, next.len(), 16);
        }
        acc = acc * 256 + o[i] as u128;
        i = i + 1;
    }
    assert(digits.take(16) =~= digits);
    acc
}

/// The address that raw address bytes of an event hold.
pub fn bytes_to_ip(b: &[u8]) -> (r: Option<IpAddr>)
    ensures
        r == ip_from_bytes(b@),
{
    if b.len() == 4 {
        Some(IpAddr::v4(b[0], b[1], b[2], b[3]))
    } else if b.len() == 16 {
        let mut octets = [0u8; 16];
        let mut i: usize = 0;
        while i < 16
            invariant
                0 <= i <= 16,
                b@.len() == 16,
                octets@.len() == 16,
                forall|j: int| 0 <= j < i ==> octets@[j] == b@[j],
            decreases 16 - i,
        {
            octets.set(i, b[i]);
            i = i + 1;
        }
        assert(octets@ =~= b@);
        match ipv4_mapped(&octets) {
            Some(v4) => Some(v4),
            None => Some(IpAddr::V6(be_u128(&octets))),
        }
    } else {
        None
    }
}

/// The fields of a network event, each `None` where it could not be parsed.
#[derive(Debug)]
pub struct EventFields {
    /// The `PID` field.
    pub pid: Option<u32>,
    /// The process id in the event header.
    pub header_pid: u32,
    /// The `size` field: the bytes transferred.
    pub size: Option<u32>,
    /// The `dport` field: the remote port.
    pub dport: Option<u16>,
    /// The `daddr` field: the remote address bytes.
    pub daddr: Option<Vec<u8>>,
    /// The event's raw timestamp.
    pub raw_timestamp: i64,
}

/// What became of one event.
#[derive(Debug)]
pub enum EventOutcome {
    /// Not a send or receive event.
    Skipped,
    /// A field could not be parsed.
    ParseFailed,
    /// The remote address had a length other than 4 or 16 bytes.
    BadAddress,
    /// A traffic event.
    Parsed(ConnEvent),
}

/// Decodes an event of id `event_id` from its fields. The header's process
/// id stands in for an unparsable `PID` field; `now_ms` stands in for a
/// timestamp before the Unix epoch.
pub fn decode_event(event_id: u16, fields: &EventFields, now_ms: i64) -> (out: EventOutcome)
    ensures
        match event_kind(event_id) {
            None => out is Skipped,
            Some((proto, direction)) => {
                if fields.size is None || fields.dport is None || fields.daddr is None {
                    out is ParseFailed
                } else if ip_from_bytes(fields.daddr->0@) is None {
                    out is BadAddress
                } else {
                    out == EventOutcome::Parsed(ConnEvent {
                        ts_ms: if filetime_to_unix_ms(fields.raw_timestamp) >= 0 {
                            filetime_to_unix_ms(fields.raw_timestamp) as i64
                        } else {
                            now_ms
                        },
                        pid: match fields.pid {
                            Some(p) => p,
                            None => fields.header_pid,
                        },
                        proto,
                        remote_ip: ip_from_bytes(fields.daddr->0@)->0,
                        remote_port: fields.dport->0,
                        bytes: fields.size->0 as u64,
                        direction,
                    })
                }
            },
        },
{
    let (proto, direction) = match classify_event(event_id) {
        Some(k) => k,
        None => return EventOutcome::Skipped,
    };
    let pid = match fields.pid {
        Some(p) => p,
        None => fields.header_pid,
    };
    let bytes = match fields.size {
        Some(v) => v,
        None => return EventOutcome::ParseFailed,
    };
    let dport = match fields.dport {
        Some(v) => v,
        None => return EventOutcome::ParseFailed,
    };
    let daddr = match &fields.daddr {
        Some(b) => b,
        None => return EventOutcome::ParseFailed,
    };
    let remote_ip = match bytes_to_ip(daddr.as_slice()) {
        Some(ip) => ip,
        None => return EventOutcome::BadAddress,
    };
    let ts_ms = match etw_ts_to_ms(fields.raw_timestamp) {
        Some(ms) => ms,
        None => now_ms,
    };
    EventOutcome::Parsed(ConnEvent { ts_ms, pid, proto, remote_ip, remote_port: dport, bytes: bytes as u64, direction })
}

} // verus!
