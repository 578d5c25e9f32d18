//! Synthetic traffic for the storage smoke test: 1000 rows drawn from a
//! xorshift generator with a fixed seed.

use vstd::prelude::*;

use crate::capture::flow::{FlowAggregator, FlowKey, FlowStats};
use crate::capture::{ConnEvent, Direction, Proto};
use crate::net::{v4_value, IpAddr};
use crate::store::Row;

verus! {

/// The generator's seed.
pub const DEMO_SEED: u64 = 0x9E37_79B9_7F4A_7C15;

/// The number of rows the demo writes.
pub const DEMO_ROWS: i64 = 1000;

/// One xorshift64 step (shifts 13, 7, 17).
pub open spec fn xorshift(s: u64) -> u64 {
    let a = s ^ (s << 13u64);
    let b = a ^ (a >> 7u64);
    b ^ (b << 17u64)
}

/// The generator state before row `i`: two steps per row.
pub open spec fn demo_state(i: nat) -> u64
    decreases i,
{
    if i == 0 {
        DEMO_SEED
    } else {
        xorshift(xorshift(demo_state((i - 1) as nat)))
    }
}

/// The demo's process names.
pub open spec fn demo_proc(j: int) -> Seq<char> {
    if j == 0 {
        "chrome.exe"@
    } else if j == 1 {
        "powershell.exe"@
    } else if j == 2 {
        "firefox.exe"@
    } else {
        "code.exe"@
    }
}

/// The demo's domains.
pub open spec fn demo_domain(j: int) -> Seq<char> {
    if j == 0 {
        "cloudflare.com"@
    } else if j == 1 {
        "google.com"@
    } else if j == 2 {
        "github.com"@
    } else if j == 3 {
        "stackoverflow.com"@
    } else {
        "rust-lang.org"@
    }
}

/// Whether `row` is demo row `i` written at `now_ms`.
pub open spec fn demo_row(row: Row, i: int, now_ms: int) -> bool {
    let r1 = xorshift(demo_state(i as nat));
    let r2 = xorshift(r1);
    &&& row.ts == now_ms - (1000 - i) * 10
    &&& row.pid == 1000 + (r1 as u32) % 100
    &&& row.proc_name@ == demo_proc((((r1 >> 32u64) as usize) % 4) as int)
    &&& row.remote_ip == IpAddr::V4(v4_value(142, 250, ((r2 >> 32u64) as u8) as int, (r2 as u8) as int) as u32)
    &&& row.domain is Some
    &&& row.domain->0@ == demo_domain(((r1 as usize) % 5) as int)
    &&& row.dport == 443
    &&& row.proto == Proto::Tcp
    &&& row.bytes_in == (r2 >> 8u64) % 50000
    &&& row.bytes_out == (r2 >> 16u64) % 5000
}

/// One xorshift64 step.
pub fn xorshift_step(s: u64) -> (r: u64)
    ensures
        r == xorshift(s),
{
    let a = s ^ (s << 13u64);
    let b = a ^ (a >> 7u64);
    b ^ (b << 17u64)
}

fn demo_proc_name(j: usize) -> (s: String)
    requires
        j < 4,
    ensures
        s@ == demo_proc(j as int),
{
    if j == 0 {
        "chrome.exe".to_owned()
    } else if j == 1 {
        "powershell.exe".to_owned()
    } else if j == 2 {
        "firefox.exe".to_owned()
    } else {
        "code.exe".to_owned()
    }
}

fn demo_domain_name(j: usize) -> (s: String)
    requires
        j < 5,
    ensures
        s@ == demo_domain(j as int),
{
    if j == 0 {
        "cloudflare.com".to_owned()
    } else if j == 1 {
        "google.com".to_owned()
    } else if j == 2 {
        "github.com".to_owned()
    } else if j == 3 {
        "stackoverflow.com".to_owned()
    } else {
        "rust-lang.org".to_owned()
    }
}

/// The 1000 demo rows written at `now_ms`, ten milliseconds apart and
/// ending ten milliseconds before `now_ms`.
pub fn demo_rows(now_ms: i64) -> (rows: Vec<Row>)
    requires
        now_ms >= i64::MIN + 10 * DEMO_ROWS,
    ensures
        rows@.len() == DEMO_ROWS,
        forall|i: int| 0 <= i < rows@.len() ==> demo_row(#[trigger] rows@[i], i, now_ms as int),
{
    let mut rows: Vec<Row> = Vec::new();
    let mut state: u64 = DEMO_SEED;
    let mut i: i64 = 0;
    while i < DEMO_ROWS
        invariant
            0 <= i <= DEMO_ROWS,
            now_ms >= i64::MIN + 10 * DEMO_ROWS,
            rows@.len() == i,
            state == demo_state(i as nat),
            forall|j: int| 0 <= j < rows@.len() ==> demo_row(#[trigger] rows@[j], j, now_ms as int),
        decreases DEMO_ROWS - i,
    {
        let r1 = xorshift_step(state);
        let r2 = xorshift_step(r1);
        state = r2;
        let proc_index = ((r1 >> 32u64) as usize) % 4;
        let domain_index = (r1 as usize) % 5;
        let row = Row {
            ts: now_ms - (DEMO_ROWS - i) * 10,
            pid: 1000 + (r1 as u32) % 100,
            proc_name: demo_proc_name(proc_index),
            remote_ip: IpAddr::v4(142, 250, (r2 >> 32u64) as u8, r2 as u8),
            domain: Some(demo_domain_name(domain_index)),
            dport: 443,
            proto: Proto::Tcp,
            bytes_in: (r2 >> 8u64) % 50000,
            bytes_out: (r2 >> 16u64) % 5000,
        };
        rows.push(row);
        i = i + 1;
    }
    rows
}

/// The flow of the demo's aggregator: process 9000 to 8.8.8.8:443 over TCP.
pub open spec fn demo_key() -> FlowKey {
    FlowKey { pid: 9000, remote_ip: IpAddr::V4(v4_value(8, 8, 8, 8) as u32), remote_port: 443, proto: Proto::Tcp }
}

/// The demo flow's statistics after `i` of its events at `now_ms`: events
/// alternate in (even) and out (odd), 1000 bytes each.
pub open spec fn demo_stats(i: int, now_ms: i64) -> FlowStats {
    FlowStats { bytes_in: (1000 * ((i + 1) / 2)) as u64, bytes_out: (1000 * (i / 2)) as u64, last_seen_ms: now_ms }
}

/// An aggregator holding the demo's flow: ten events of 1000 bytes between
/// process 9000 and 8.8.8.8:443 over TCP at `now_ms`, alternately in and
/// out, with the name `demo_proc.exe` registered for the process.
pub fn demo_aggregator(now_ms: i64) -> (a: FlowAggregator)
    ensures
        a.wf(),
        a.flows() == map![demo_key() => demo_stats(10, now_ms)],
        a.names() == map![9000u32 => "demo_proc.exe"@],
        a.domains() == Map::<IpAddr, Seq<char>>::empty(),
        a.interval_ms() == 2_000,
        !a.in_test_mode(),
{
    let mut agg = FlowAggregator::new();
    let mut i: u64 = 0;
    while i < 10
        invariant
            0 <= i <= 10,
            agg.wf(),
            i == 0 ==> agg.flows() == Map::<FlowKey, FlowStats>::empty(),
            i > 0 ==> agg.flows() == map![demo_key() => demo_stats(i as int, now_ms)],
            agg.names() == Map::<u32, Seq<char>>::empty(),
            agg.domains() == Map::<IpAddr, Seq<char>>::empty(),
            agg.interval_ms() == 2_000,
            !agg.in_test_mode(),
        decreases 10 - i,
    {
        let ev = ConnEvent {
            ts_ms: now_ms,
            pid: 9000,
            proto: Proto::Tcp,
            remote_ip: IpAddr::v4(8, 8, 8, 8),
            remote_port: 443,
            bytes: 1000,
            direction: if i % 2 == 0 { Direction::In } else { Direction::Out },
        };
        proof {
            assert(crate::capture::flow::key_of(ev) == demo_key());
            if i > 0 {
                assert(agg.flows().contains_key(demo_key()));
            }
        }
        agg.observe(ev);
        proof {
            let next = (i + 1) as int;
            assert(agg.flows() =~= map![demo_key() => demo_stats(next, now_ms)]);
        }
        i = i + 1;
    }
    agg.update_proc_name(9000, "demo_proc.exe".to_owned());
    proof {
        assert(agg.names() =~= map![9000u32 => "demo_proc.exe"@]);
    }
    agg
}

} // verus!
