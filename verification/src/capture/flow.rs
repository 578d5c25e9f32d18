//! In-memory flow aggregator. Sums bytes per (pid, remote_ip, port, proto)
//! and drains the sums as rows at a fixed cadence.
//!
//! Flows are held in insertion order, each key once; the process names and
//! resolved domains that label the rows are held in hash maps keyed by
//! integers.

use std::collections::HashMap;
use std::time::Instant;

use vstd::prelude::*;

use crate::capture::{ConnEvent, Direction, Proto};
use crate::clock::{elapsed_millis, instant_now};
use crate::net::IpAddr;
use crate::store::Row;
use crate::text::{decimal, push_decimal};

verus! {

broadcast use vstd::std_specs::hash::group_hash_axioms;

/// What a flow is keyed by. Direction is not part of the key: both
/// directions of a flow are summed in its `FlowStats`.
#[derive(Clone, Copy, Debug, PartialEq, Eq, Hash, Structural)]
pub struct FlowKey {
    pub pid: u32,
    pub remote_ip: IpAddr,
    pub remote_port: u16,
    pub proto: Proto,
}

/// The byte counts of one flow and the time of its latest event.
#[derive(Clone, Copy, Debug)]
pub struct FlowStats {
    pub bytes_in: u64,
    pub bytes_out: u64,
    pub last_seen_ms: i64,
}

impl Default for FlowStats {
    /// No bytes, last seen at time 0.
    fn default() -> (s: Self)
        ensures
            s == zero_stats(),
    {
        FlowStats { bytes_in: 0, bytes_out: 0, last_seen_ms: 0 }
    }
}

/// The flow an event belongs to.
pub open spec fn key_of(ev: ConnEvent) -> FlowKey {
    FlowKey { pid: ev.pid, remote_ip: ev.remote_ip, remote_port: ev.remote_port, proto: ev.proto }
}

/// The statistics of a flow that has seen no event.
pub open spec fn zero_stats() -> FlowStats {
    FlowStats { bytes_in: 0, bytes_out: 0, last_seen_ms: 0 }
}

/// Whether adding the bytes of `ev` to `st` stays within 64 bits.
pub open spec fn event_fits(st: FlowStats, ev: ConnEvent) -> bool {
    match ev.direction {
        Direction::In => st.bytes_in + ev.bytes <= u64::MAX,
        Direction::Out => st.bytes_out + ev.bytes <= u64::MAX,
    }
}

/// `st` after the event `ev`: its bytes added in their direction, and the
/// event's time as the time last seen.
pub open spec fn add_event(st: FlowStats, ev: ConnEvent) -> FlowStats {
    match ev.direction {
        Direction::In => FlowStats {
            bytes_in: (st.bytes_in + ev.bytes) as u64,
            bytes_out: st.bytes_out,
            last_seen_ms: ev.ts_ms,
        },
        Direction::Out => FlowStats {
            bytes_in: st.bytes_in,
            bytes_out: (st.bytes_out + ev.bytes) as u64,
            last_seen_ms: ev.ts_ms,
        },
    }
}

/// No key occurs twice.
pub open spec fn distinct_keys(s: Seq<(FlowKey, FlowStats)>) -> bool {
    forall|i: int, j: int| 0 <= i < j < s.len() ==> s[i].0 != s[j].0
}

/// Whether some entry has key `k`.
pub open spec fn has_key(s: Seq<(FlowKey, FlowStats)>, k: FlowKey) -> bool {
    exists|i: int| 0 <= i < s.len() && s[i].0 == k
}

/// The map from keys to statistics that a list of entries describes.
pub open spec fn entries_map(s: Seq<(FlowKey, FlowStats)>) -> Map<FlowKey, FlowStats>
    decreases s.len(),
{
    if s.len() == 0 {
        Map::empty()
    } else {
        entries_map(s.drop_last()).insert(s.last().0, s.last().1)
    }
}

/// The statistics of `k` in `m`, or those of a flow with no event.
pub open spec fn stats_of(m: Map<FlowKey, FlowStats>, k: FlowKey) -> FlowStats {
    if m.contains_key(k) {
        m[k]
    } else {
        zero_stats()
    }
}

/// The entries after observing `ev`: the entry of its flow updated in
/// place, or a new entry at the end.
pub open spec fn observed_entries(s: Seq<(FlowKey, FlowStats)>, ev: ConnEvent) -> Seq<(FlowKey, FlowStats)> {
    let k = key_of(ev);
    if has_key(s, k) {
        let i = choose|i: int| 0 <= i < s.len() && s[i].0 == k;
        s.update(i, (k, add_event(s[i].1, ev)))
    } else {
        s.push((k, add_event(zero_stats(), ev)))
    }
}

/// The process name that labels rows of `pid`: the registered name, or
/// `pid:<pid>`.
pub open spec fn proc_label(names: Map<u32, Seq<char>>, pid: u32) -> Seq<char> {
    if names.contains_key(pid) {
        names[pid]
    } else {
        "pid:"@ + decimal(pid as nat)
    }
}

/// Whether `d` is the domain registered for `ip`, if one is.
pub open spec fn domain_matches(d: Option<String>, domains: Map<IpAddr, Seq<char>>, ip: IpAddr) -> bool {
    match d {
        Some(s) => domains.contains_key(ip) && domains[ip] == s@,
        None => !domains.contains_key(ip),
    }
}

/// Rust's truncating division of `x` by `d`.
pub open spec fn trunc_div(x: int, d: int) -> int {
    if x == 0 {
        0
    } else if x > 0 && d > 0 {
        x / d
    } else if x < 0 && d < 0 {
        (x * -1) / (d * -1)
    } else if x < 0 {
        ((x * -1) / d) * -1
    } else {
        (x / (d * -1)) * -1
    }
}

/// The start of the bucket of width `width` that holds `now`:
/// `(now / width) * width` in 64-bit arithmetic.
pub open spec fn bucket_start(now: int, width: int) -> int {
    trunc_div(now, width) * width
}

/// The bucket width used for a flush interval: its milliseconds as `i64`.
pub open spec fn bucket_width(interval_ms: u64) -> int {
    interval_ms as i64 as int
}

/// Whether rows can be stamped with this interval: its bucket width is not
/// zero.
pub open spec fn drain_ok(interval_ms: u64) -> bool {
    bucket_width(interval_ms) != 0
}

/// Whether `row` is the row of the flow `entry` at time `ts`, labelled
/// with `names` and `domains`.
pub open spec fn row_describes(
    row: Row,
    entry: (FlowKey, FlowStats),
    ts: int,
    names: Map<u32, Seq<char>>,
    domains: Map<IpAddr, Seq<char>>,
) -> bool {
    &&& row.ts == ts
    &&& row.pid == entry.0.pid
    &&& row.proc_name@ == proc_label(names, entry.0.pid)
    &&& row.remote_ip == entry.0.remote_ip
    &&& domain_matches(row.domain, domains, entry.0.remote_ip)
    &&& row.dport == entry.0.remote_port
    &&& row.proto == entry.0.proto
    &&& row.bytes_in == entry.1.bytes_in
    &&& row.bytes_out == entry.1.bytes_out
}

/// The rows are those of `entries`, in order, at time `ts`.
pub open spec fn rows_describe(
    rows: Seq<Row>,
    entries: Seq<(FlowKey, FlowStats)>,
    ts: int,
    names: Map<u32, Seq<char>>,
    domains: Map<IpAddr, Seq<char>>,
) -> bool {
    &&& rows.len() == entries.len()
    &&& forall|i: int| 0 <= i < rows.len() ==> row_describes(#[trigger] rows[i], entries[i], ts, names, domains)
}

pub proof fn lemma_entries_map_contains(s: Seq<(FlowKey, FlowStats)>, k: FlowKey)
    ensures
        entries_map(s).contains_key(k) <==> has_key(s, k),
    decreases s.len(),
{
    if s.len() > 0 {
        let init = s.drop_last();
        lemma_entries_map_contains(init, k);
        if has_key(init, k) {
            let i = choose|i: int| 0 <= i < init.len() && init[i].0 == k;
            assert(s[i].0 == k);
        }
        if has_key(s, k) && s.last().0 != k {
            let i = choose|i: int| 0 <= i < s.len() && s[i].0 == k;
            assert(i < s.len() - 1);
            assert(init[i].0 == k);
        }
    }
}

pub proof fn lemma_entries_map_index(s: Seq<(FlowKey, FlowStats)>, i: int)
    requires
        distinct_keys(s),
        0 <= i < s.len(),
    ensures
        entries_map(s).contains_key(s[i].0),
        entries_map(s)[s[i].0] == s[i].1,
    decreases s.len(),
{
    if i < s.len() - 1 {
        let init = s.drop_last();
        assert(init[i] == s[i]);
        lemma_entries_map_index(init, i);
        assert(s[i].0 != s[s.len() - 1].0);
    }
}

pub proof fn lemma_entries_map_update(s: Seq<(FlowKey, FlowStats)>, i: int, v: FlowStats)
    requires
        distinct_keys(s),
        0 <= i < s.len(),
    ensures
        entries_map(s.update(i, (s[i].0, v))) == entries_map(s).insert(s[i].0, v),
    decreases s.len(),
{
    let t = s.update(i, (s[i].0, v));
    let init = s.drop_last();
    if i == s.len() - 1 {
        assert(t.drop_last() =~= init);
        assert(entries_map(t) =~= entries_map(s).insert(s[i].0, v));
    } else {
        assert(t.drop_last() =~= init.update(i, (init[i].0, v)));
        lemma_entries_map_update(init, i, v);
        assert(s[i].0 != s[s.len() - 1].0);
        assert(entries_map(t) =~= entries_map(s).insert(s[i].0, v));
    }
}


/// The flow map after observing `ev`.
pub open spec fn observe_map(m: Map<FlowKey, FlowStats>, ev: ConnEvent) -> Map<FlowKey, FlowStats> {
    m.insert(key_of(ev), add_event(stats_of(m, key_of(ev)), ev))
}

/// The flow map after observing `evs` in order, starting from `m`.
pub open spec fn apply_events(m: Map<FlowKey, FlowStats>, evs: Seq<ConnEvent>) -> Map<FlowKey, FlowStats>
    decreases evs.len(),
{
    if evs.len() == 0 {
        m
    } else {
        observe_map(apply_events(m, evs.drop_last()), evs.last())
    }
}

/// The total bytes of the events of flow `k` in direction `d`.
pub open spec fn sum_bytes(evs: Seq<ConnEvent>, k: FlowKey, d: Direction) -> int
    decreases evs.len(),
{
    if evs.len() == 0 {
        0
    } else {
        sum_bytes(evs.drop_last(), k, d) + if key_of(evs.last()) == k && evs.last().direction == d {
            evs.last().bytes as int
        } else {
            0
        }
    }
}

/// The time of the latest event of flow `k` (0 when there is none).
pub open spec fn latest_ts(evs: Seq<ConnEvent>, k: FlowKey) -> i64
    decreases evs.len(),
{
    if evs.len() == 0 {
        0
    } else if key_of(evs.last()) == k {
        evs.last().ts_ms
    } else {
        latest_ts(evs.drop_last(), k)
    }
}

/// Whether some event belongs to flow `k`.
pub open spec fn has_event_of(evs: Seq<ConnEvent>, k: FlowKey) -> bool {
    exists|i: int| 0 <= i < evs.len() && key_of(evs[i]) == k
}

/// Whether no flow's total bytes in either direction pass 64 bits.
pub open spec fn totals_fit(evs: Seq<ConnEvent>) -> bool {
    forall|k: FlowKey|
        #![trigger sum_bytes(evs, k, Direction::In)]
        #![trigger sum_bytes(evs, k, Direction::Out)]
        sum_bytes(evs, k, Direction::In) <= u64::MAX && sum_bytes(evs, k, Direction::Out) <= u64::MAX
}

/// Totals only grow as events are added.
pub proof fn lemma_sum_bytes_prefix(evs: Seq<ConnEvent>, k: FlowKey, d: Direction)
    requires
        evs.len() > 0,
    ensures
        0 <= sum_bytes(evs.drop_last(), k, d) <= sum_bytes(evs, k, d),
    decreases evs.len(),
{
    lemma_sum_bytes_nonneg(evs.drop_last(), k, d);
}

/// A flow with no event has no bytes.
pub proof fn lemma_sum_bytes_zero(evs: Seq<ConnEvent>, k: FlowKey, d: Direction)
    requires
        !has_event_of(evs, k),
    ensures
        sum_bytes(evs, k, d) == 0,
    decreases evs.len(),
{
    if evs.len() > 0 {
        let init = evs.drop_last();
        assert(!has_event_of(init, k)) by {
            if has_event_of(init, k) {
                let i = choose|i: int| 0 <= i < init.len() && key_of(init[i]) == k;
                assert(evs[i] == init[i]);
            }
        }
        lemma_sum_bytes_zero(init, k, d);
        assert(key_of(evs[evs.len() - 1]) != k);
    }
}

pub proof fn lemma_sum_bytes_nonneg(evs: Seq<ConnEvent>, k: FlowKey, d: Direction)
    ensures
        0 <= sum_bytes(evs, k, d),
    decreases evs.len(),
{
    if evs.len() > 0 {
        lemma_sum_bytes_nonneg(evs.drop_last(), k, d);
    }
}

/// Aggregation sums bytes per flow: starting from no flows, observing
/// events gives exactly one flow per key that some event has, whose bytes
/// in and out are the totals of its events in each direction, and whose
/// time last seen is that of its latest event. Direction is not part of
/// the key. Each observation along the way meets `observe`'s requirement.
pub proof fn law_flows_sum_events(evs: Seq<ConnEvent>)
    requires
        totals_fit(evs),
    ensures
        forall|k: FlowKey| #[trigger] apply_events(Map::empty(), evs).contains_key(k) <==> has_event_of(evs, k),
        forall|k: FlowKey|
            #[trigger] apply_events(Map::empty(), evs).contains_key(k) ==> {
                &&& apply_events(Map::empty(), evs)[k].bytes_in == sum_bytes(evs, k, Direction::In)
                &&& apply_events(Map::empty(), evs)[k].bytes_out == sum_bytes(evs, k, Direction::Out)
                &&& apply_events(Map::empty(), evs)[k].last_seen_ms == latest_ts(evs, k)
            },
        forall|i: int|
            0 <= i < evs.len() ==> event_fits(
                stats_of(apply_events(Map::empty(), #[trigger] evs.take(i)), key_of(evs[i])),
                evs[i],
            ),
    decreases evs.len(),
{
    if evs.len() > 0 {
        let init = evs.drop_last();
        let ev = evs.last();
        assert(totals_fit(init)) by {
            assert forall|k: FlowKey| true implies sum_bytes(init, k, Direction::In) <= u64::MAX
                && sum_bytes(init, k, Direction::Out) <= u64::MAX by {
                lemma_sum_bytes_prefix(evs, k, Direction::In);
                lemma_sum_bytes_prefix(evs, k, Direction::Out);
                assert(sum_bytes(evs, k, Direction::In) <= u64::MAX);
                assert(sum_bytes(evs, k, Direction::Out) <= u64::MAX);
            }
        }
        law_flows_sum_events(init);
        let m0 = apply_events(Map::empty(), init);
        let k0 = key_of(ev);
        assert(sum_bytes(evs, k0, Direction::In) <= u64::MAX);
        assert(sum_bytes(evs, k0, Direction::Out) <= u64::MAX);
        lemma_sum_bytes_nonneg(init, k0, Direction::In);
        lemma_sum_bytes_nonneg(init, k0, Direction::Out);
        assert forall|k: FlowKey| #[trigger] apply_events(Map::empty(), evs).contains_key(k) <==> has_event_of(evs, k) by {
            if has_event_of(init, k) {
                let i = choose|i: int| 0 <= i < init.len() && key_of(init[i]) == k;
                assert(evs[i] == init[i]);
            }
            if has_event_of(evs, k) && k != k0 {
                let i = choose|i: int| 0 <= i < evs.len() && key_of(evs[i]) == k;
                assert(i < evs.len() - 1);
                assert(init[i] == evs[i]);
            }
            assert(evs[evs.len() - 1] == ev);
        }
        assert forall|k: FlowKey| #[trigger] apply_events(Map::empty(), evs).contains_key(k) implies {
            &&& apply_events(Map::empty(), evs)[k].bytes_in == sum_bytes(evs, k, Direction::In)
            &&& apply_events(Map::empty(), evs)[k].bytes_out == sum_bytes(evs, k, Direction::Out)
            &&& apply_events(Map::empty(), evs)[k].last_seen_ms == latest_ts(evs, k)
        } by {
            if k == k0 && !m0.contains_key(k0) {
                lemma_sum_bytes_zero(init, k0, Direction::In);
                lemma_sum_bytes_zero(init, k0, Direction::Out);
            }
        }
        assert forall|i: int| 0 <= i < evs.len() implies event_fits(
            stats_of(apply_events(Map::empty(), #[trigger] evs.take(i)), key_of(evs[i])),
            evs[i],
        ) by {
            if i < evs.len() - 1 {
                assert(evs.take(i) =~= init.take(i));
                assert(evs[i] == init[i]);
            } else {
                assert(evs.take(i) =~= init);
            }
        }
    }
}

/// A registered name labels the rows of its process; a process with no
/// registered name is labelled `pid:` and its id in decimal.
pub proof fn law_rows_labelled_by_registered_name(names: Map<u32, Seq<char>>, pid: u32, name: Seq<char>)
    ensures
        proc_label(names.insert(pid, name), pid) == name,
        !names.contains_key(pid) ==> proc_label(names, pid) == "pid:"@ + decimal(pid as nat),
{
}

/// Names taken in bulk (as from a process-cache snapshot) label rows:
/// each process among them is labelled with the new name, and any other
/// process keeps the label it had.
pub proof fn law_bulk_names_label_rows(names: Map<u32, Seq<char>>, taken: Map<u32, Seq<char>>, pid: u32)
    ensures
        taken.contains_key(pid) ==> proc_label(names.union_prefer_right(taken), pid) == taken[pid],
        !taken.contains_key(pid) ==> proc_label(names.union_prefer_right(taken), pid) == proc_label(names, pid),
{
}

/// Rows are stamped with the start of their flush window: for a positive
/// width, a non-negative time lies in `[bucket, bucket + width)` and a
/// negative one in `(bucket - width, bucket]` (division truncates toward
/// zero); the stamp is a multiple of the width, and stamping it again
/// gives itself, so all times of one window share one stamp.
pub proof fn law_bucket_is_window_start(now: int, width: int)
    requires
        width > 0,
    ensures
        now >= 0 ==> bucket_start(now, width) <= now < bucket_start(now, width) + width,
        now < 0 ==> bucket_start(now, width) - width < now <= bucket_start(now, width),
        bucket_start(now, width) % width == 0,
        bucket_start(bucket_start(now, width), width) == bucket_start(now, width),
{
    if now > 0 {
        let q = now / width;
        lemma_positive_bucket(now, width, q);
        if q > 0 {
            lemma_multiple_bucket(q, width);
        } else {
            assert(q * width == 0) by (nonlinear_arith)
                requires
                    q == 0,
            ;
            assert(bucket_start(0, width) == 0);
        }
    } else if now < 0 {
        let q = (-now) / width;
        lemma_negative_bucket(now, width, q);
        if q > 0 {
            lemma_negative_multiple_bucket(q, width);
        } else {
            assert(q * width == 0) by (nonlinear_arith)
                requires
                    q == 0,
            ;
            assert(bucket_start(0, width) == 0);
        }
    } else {
        assert(bucket_start(0, width) == 0);
        assert(0int % width == 0) by (nonlinear_arith)
            requires
                width > 0,
        ;
    }
}

/// For `now < 0`, the bucket is `-(((-now) / width) * width)`, in the window.
proof fn lemma_negative_bucket(now: int, width: int, q: int)
    requires
        now < 0,
        width > 0,
        q == (-now) / width,
    ensures
        q >= 0,
        bucket_start(now, width) == -(q * width),
        bucket_start(now, width) - width < now <= bucket_start(now, width),
        bucket_start(now, width) % width == 0,
{
    lemma_positive_bucket(-now, width, q);
    assert(now * -1 == -now);
    assert(trunc_div(now, width) == -q);
    assert(bucket_start(now, width) == (-q) * width);
    assert((-q) * width == -(q * width)) by (nonlinear_arith);
    vstd::arithmetic::div_mod::lemma_mod_multiples_basic(-q, width);
}

/// The negative of a positive multiple of the width is its own bucket.
proof fn lemma_negative_multiple_bucket(q: int, width: int)
    requires
        q > 0,
        width > 0,
    ensures
        bucket_start(-(q * width), width) == -(q * width),
{
    lemma_multiple_bucket(q, width);
    let x = -(q * width);
    assert(x < 0);
    assert(x * -1 == q * width);
    assert(trunc_div(x, width) == ((x * -1) / width) * -1);
    assert(trunc_div(x, width) == -q);
    assert((-q) * width == -(q * width)) by (nonlinear_arith);
}

/// For `now > 0`, the bucket is `(now / width) * width`, in the window.
proof fn lemma_positive_bucket(now: int, width: int, q: int)
    requires
        now > 0,
        width > 0,
        q == now / width,
    ensures
        q >= 0,
        bucket_start(now, width) == q * width,
        q * width <= now < q * width + width,
        (q * width) % width == 0,
{
    assert(q * width <= now < q * width + width && q >= 0) by (nonlinear_arith)
        requires
            now > 0,
            width > 0,
            q == now / width,
    ;
    vstd::arithmetic::div_mod::lemma_mod_multiples_basic(q, width);
    assert(trunc_div(now, width) == q);
}

/// A positive multiple of the width is its own bucket.
proof fn lemma_multiple_bucket(q: int, width: int)
    requires
        q > 0,
        width > 0,
    ensures
        q * width > 0,
        (q * width) / width == q,
        bucket_start(q * width, width) == q * width,
{
    assert((q * width) / width == q && q * width > 0) by (nonlinear_arith)
        requires
            width > 0,
            q > 0,
    ;
    assert(trunc_div(q * width, width) == q);
}

/// The flow a row reports.
pub open spec fn row_key(row: Row) -> FlowKey {
    FlowKey { pid: row.pid, remote_ip: row.remote_ip, remote_port: row.dport, proto: row.proto }
}

/// Draining gives one row per flow: for each flow there is a row with its
/// process, address, port and protocol and its byte counts, and no two
/// rows report the same flow.
pub proof fn law_drain_one_row_per_flow(
    rows: Seq<Row>,
    entries: Seq<(FlowKey, FlowStats)>,
    ts: int,
    names: Map<u32, Seq<char>>,
    domains: Map<IpAddr, Seq<char>>,
)
    requires
        distinct_keys(entries),
        rows_describe(rows, entries, ts, names, domains),
    ensures
        rows.len() == entries_map(entries).len(),
        forall|k: FlowKey|
            #[trigger] entries_map(entries).contains_key(k) ==> exists|i: int|
                0 <= i < rows.len() && row_key(rows[i]) == k && rows[i].bytes_in == entries_map(entries)[k].bytes_in
                    && rows[i].bytes_out == entries_map(entries)[k].bytes_out,
        forall|i: int, j: int| 0 <= i < j < rows.len() ==> row_key(#[trigger] rows[i]) != row_key(#[trigger] rows[j]),
{
    lemma_entries_map_len(entries);
    assert forall|k: FlowKey| #[trigger] entries_map(entries).contains_key(k) implies exists|i: int|
        0 <= i < rows.len() && row_key(rows[i]) == k && rows[i].bytes_in == entries_map(entries)[k].bytes_in
            && rows[i].bytes_out == entries_map(entries)[k].bytes_out by {
        lemma_entries_map_contains(entries, k);
        let i = choose|i: int| 0 <= i < entries.len() && entries[i].0 == k;
        lemma_entries_map_index(entries, i);
        assert(row_describes(rows[i], entries[i], ts, names, domains));
        assert(row_key(rows[i]) == k);
    }
    assert forall|i: int, j: int| 0 <= i < j < rows.len() implies row_key(#[trigger] rows[i]) != row_key(#[trigger] rows[j]) by {
        assert(row_describes(rows[i], entries[i], ts, names, domains));
        assert(row_describes(rows[j], entries[j], ts, names, domains));
        assert(entries[i].0 != entries[j].0);
    }
}

/// The bytes of `st` in direction `d`.
pub open spec fn stat_bytes(st: FlowStats, d: Direction) -> int {
    match d {
        Direction::In => st.bytes_in as int,
        Direction::Out => st.bytes_out as int,
    }
}

/// The bytes in direction `d` that the rows report for flow `k`.
pub open spec fn row_bytes(rows: Seq<Row>, k: FlowKey, d: Direction) -> int
    decreases rows.len(),
{
    if rows.len() == 0 {
        0
    } else {
        row_bytes(rows.drop_last(), k, d) + if row_key(rows.last()) == k {
            match d {
                Direction::In => rows.last().bytes_in as int,
                Direction::Out => rows.last().bytes_out as int,
            }
        } else {
            0
        }
    }
}

/// The bytes in direction `d` for flow `k` over the rows of all flushes.
pub open spec fn flushed_bytes(flushes: Seq<Seq<Row>>, k: FlowKey, d: Direction) -> int
    decreases flushes.len(),
{
    if flushes.len() == 0 {
        0
    } else {
        flushed_bytes(flushes.drop_last(), k, d) + row_bytes(flushes.last(), k, d)
    }
}

/// The events of all windows, in order.
pub open spec fn all_events(windows: Seq<Seq<ConnEvent>>) -> Seq<ConnEvent>
    decreases windows.len(),
{
    if windows.len() == 0 {
        Seq::empty()
    } else {
        all_events(windows.drop_last()) + windows.last()
    }
}

/// Whether `rows` are the rows of one flush of the flows that observing
/// `window` from no flows gives: the flows that the window's events make,
/// each once, stamped at some time and labelled with some names and
/// domains.
pub open spec fn flush_of_window(rows: Seq<Row>, window: Seq<ConnEvent>) -> bool {
    exists|entries: Seq<(FlowKey, FlowStats)>, ts: int, names: Map<u32, Seq<char>>, domains: Map<IpAddr, Seq<char>>|
        {
            &&& distinct_keys(entries)
            &&& entries_map(entries) == apply_events(Map::empty(), window)
            &&& #[trigger] rows_describe(rows, entries, ts, names, domains)
        }
}

/// Totals over a concatenation are the sums of the totals of the parts.
pub proof fn lemma_sum_bytes_append(a: Seq<ConnEvent>, b: Seq<ConnEvent>, k: FlowKey, d: Direction)
    ensures
        sum_bytes(a + b, k, d) == sum_bytes(a, k, d) + sum_bytes(b, k, d),
    decreases b.len(),
{
    if b.len() == 0 {
        assert(a + b =~= a);
    } else {
        lemma_sum_bytes_append(a, b.drop_last(), k, d);
        assert((a + b).drop_last() =~= a + b.drop_last());
        assert((a + b).last() == b.last());
    }
}

/// The rows of distinct entries report, for each flow, the bytes of its
/// entry (none for a flow without an entry).
pub proof fn lemma_row_bytes(
    rows: Seq<Row>,
    entries: Seq<(FlowKey, FlowStats)>,
    ts: int,
    names: Map<u32, Seq<char>>,
    domains: Map<IpAddr, Seq<char>>,
    k: FlowKey,
    d: Direction,
)
    requires
        distinct_keys(entries),
        rows_describe(rows, entries, ts, names, domains),
    ensures
        row_bytes(rows, k, d) == stat_bytes(stats_of(entries_map(entries), k), d),
    decreases rows.len(),
{
    if rows.len() > 0 {
        let ri = rows.drop_last();
        let ei = entries.drop_last();
        let n = rows.len() - 1;
        assert(distinct_keys(ei)) by {
            assert forall|i: int, j: int| 0 <= i < j < ei.len() implies ei[i].0 != ei[j].0 by {
                assert(ei[i] == entries[i] && ei[j] == entries[j]);
            }
        }
        assert(rows_describe(ri, ei, ts, names, domains)) by {
            assert forall|i: int| 0 <= i < ri.len() implies row_describes(#[trigger] ri[i], ei[i], ts, names, domains) by {
                assert(ri[i] == rows[i] && ei[i] == entries[i]);
                assert(row_describes(rows[i], entries[i], ts, names, domains));
            }
        }
        lemma_row_bytes(ri, ei, ts, names, domains, k, d);
        assert(row_describes(rows[n], entries[n], ts, names, domains));
        assert(rows.last() == rows[n]);
        assert(entries.last() == entries[n]);
        assert(row_key(rows[n]) == entries[n].0);
        if entries[n].0 == k {
            lemma_entries_map_contains(ei, k);
            if has_key(ei, k) {
                let i = choose|i: int| 0 <= i < ei.len() && ei[i].0 == k;
                assert(entries[i].0 == entries[n].0);
            }
        }
    }
}

/// Over a run, the rows of all flushes report the bytes of all events: when
/// each flush reports the flows that its window of events made from no
/// flows (a drain leaves no flow behind), the bytes of each flow in each
/// direction summed over all flushes are the bytes of its events, none lost
/// and none counted twice.
pub proof fn law_flushes_sum_events(windows: Seq<Seq<ConnEvent>>, flushes: Seq<Seq<Row>>, k: FlowKey, d: Direction)
    requires
        flushes.len() == windows.len(),
        forall|j: int| 0 <= j < windows.len() ==> totals_fit(#[trigger] windows[j]),
        forall|j: int| 0 <= j < windows.len() ==> flush_of_window(#[trigger] flushes[j], windows[j]),
    ensures
        flushed_bytes(flushes, k, d) == sum_bytes(all_events(windows), k, d),
    decreases windows.len(),
{
    if windows.len() > 0 {
        let n = windows.len() - 1;
        let wi = windows.drop_last();
        let fi = flushes.drop_last();
        assert forall|j: int| 0 <= j < wi.len() implies totals_fit(#[trigger] wi[j]) by {
            assert(wi[j] == windows[j]);
        }
        assert forall|j: int| 0 <= j < wi.len() implies flush_of_window(#[trigger] fi[j], wi[j]) by {
            assert(wi[j] == windows[j] && fi[j] == flushes[j]);
        }
        law_flushes_sum_events(wi, fi, k, d);
        let w = windows[n];
        assert(windows.last() == w && flushes.last() == flushes[n]);
        assert(totals_fit(w));
        assert(flush_of_window(flushes[n], w));
        let (entries, ts, names, domains) = choose|
            entries: Seq<(FlowKey, FlowStats)>,
            ts: int,
            names: Map<u32, Seq<char>>,
            domains: Map<IpAddr, Seq<char>>,
        |
            {
                &&& distinct_keys(entries)
                &&& entries_map(entries) == apply_events(Map::empty(), w)
                &&& #[trigger] rows_describe(flushes[n], entries, ts, names, domains)
            };
        lemma_row_bytes(flushes[n], entries, ts, names, domains, k, d);
        law_flows_sum_events(w);
        let m = apply_events(Map::empty(), w);
        if m.contains_key(k) {
            assert(m[k].bytes_in == sum_bytes(w, k, Direction::In));
            assert(m[k].bytes_out == sum_bytes(w, k, Direction::Out));
        } else {
            assert(!has_event_of(w, k));
            lemma_sum_bytes_zero(w, k, d);
        }
        assert(row_bytes(flushes[n], k, d) == sum_bytes(w, k, d));
        lemma_sum_bytes_append(all_events(wi), w, k, d);
    }
}

/// Returns the index of the entry with key `key`, if any.
fn find_key(flows: &Vec<(FlowKey, FlowStats)>, key: &FlowKey) -> (r: Option<usize>)
    ensures
        match r {
            Some(i) => i < flows@.len() && flows@[i as int].0 == *key,
            None => !has_key(flows@, *key),
        },
{
    let n = flows.len();
    let mut i: usize = 0;
    while i < n
        invariant
            n == flows@.len(),
            0 <= i <= n,
            forall|j: int| 0 <= j < i ==> flows@[j].0 != *key,
        decreases n - i,
    {
        if flows[i].0 == *key {
            return Some(i);
        }
        i = i + 1;
    }
    None
}

/// `st` after the event `ev`.
fn add_to(st: FlowStats, ev: &ConnEvent) -> (r: FlowStats)
    requires
        event_fits(st, *ev),
    ensures
        r == add_event(st, *ev),
{
    match ev.direction {
        Direction::In => FlowStats { bytes_in: st.bytes_in + ev.bytes, bytes_out: st.bytes_out, last_seen_ms: ev.ts_ms },
        Direction::Out => FlowStats { bytes_in: st.bytes_in, bytes_out: st.bytes_out + ev.bytes, last_seen_ms: ev.ts_ms },
    }
}

/// Sums byte events per flow and labels the sums with process names and
/// domains when they are drained as rows.
pub struct FlowAggregator {
    flows: Vec<(FlowKey, FlowStats)>,
    /// Process name cache, looked up on flush.
    proc_names: HashMap<u32, String>,
    /// Resolved domains of IPv4 addresses.
    domains_v4: HashMap<u32, String>,
    /// Resolved domains of IPv6 addresses.
    domains_v6: HashMap<u128, String>,
    /// Time of the last drain on the monotonic clock.
    last_flush: Instant,
    /// Flush interval in milliseconds; also the width of row time buckets.
    flush_interval_ms: u64,
    /// Set for tests: auto-flush is disabled and flows accumulate until
    /// they are drained explicitly.
    test_mode: bool,
}

impl FlowAggregator {
    /// Well-formedness: each flow has one entry. Every constructor
    /// establishes it and every method keeps it.
    pub open spec fn wf(&self) -> bool {
        distinct_keys(self.entries())
    }

    /// The flows in the order they were first seen.
    pub closed spec fn entries(&self) -> Seq<(FlowKey, FlowStats)> {
        self.flows@
    }

    /// The statistics of each flow.
    pub open spec fn flows(&self) -> Map<FlowKey, FlowStats> {
        entries_map(self.entries())
    }

    /// The registered process names.
    pub closed spec fn names(&self) -> Map<u32, Seq<char>> {
        self.proc_names@.map_values(|s: String| s@)
    }

    /// The registered domains.
    pub closed spec fn domains(&self) -> Map<IpAddr, Seq<char>> {
        Map::new(
            |ip: IpAddr|
                match ip {
                    IpAddr::V4(a) => self.domains_v4@.contains_key(a),
                    IpAddr::V6(b) => self.domains_v6@.contains_key(b),
                },
            |ip: IpAddr|
                match ip {
                    IpAddr::V4(a) => self.domains_v4@[a]@,
                    IpAddr::V6(b) => self.domains_v6@[b]@,
                },
        )
    }

    /// The flush interval in milliseconds.
    pub closed spec fn interval_ms(&self) -> u64 {
        self.flush_interval_ms
    }

    /// The time of the last drain on the monotonic clock.
    pub closed spec fn timer(&self) -> Instant {
        self.last_flush
    }

    /// Whether the aggregator was made for tests.
    pub closed spec fn in_test_mode(&self) -> bool {
        self.test_mode
    }

    /// An aggregator with a two-second flush interval.
    pub fn new() -> (a: Self)
        ensures
            a.entries() == Seq::<(FlowKey, FlowStats)>::empty(),
            a.wf(),
            a.names() == Map::<u32, Seq<char>>::empty(),
            a.domains() == Map::<IpAddr, Seq<char>>::empty(),
            a.interval_ms() == 2_000,
            !a.in_test_mode(),
    {
        Self::with_interval(2_000)
    }

    /// An aggregator flushing every `flush_interval_ms` milliseconds.
    pub fn with_interval(flush_interval_ms: u64) -> (a: Self)
        ensures
            a.entries() == Seq::<(FlowKey, FlowStats)>::empty(),
            a.wf(),
            a.names() == Map::<u32, Seq<char>>::empty(),
            a.domains() == Map::<IpAddr, Seq<char>>::empty(),
            a.interval_ms() == flush_interval_ms,
            !a.in_test_mode(),
    {
        let a = FlowAggregator {
            flows: Vec::new(),
            proc_names: HashMap::new(),
            domains_v4: HashMap::new(),
            domains_v6: HashMap::new(),
            last_flush: instant_now(),
            flush_interval_ms,
            test_mode: false,
        };
        assert(a.names() =~= Map::<u32, Seq<char>>::empty());
        assert(a.domains() =~= Map::<IpAddr, Seq<char>>::empty());
        a
    }

    /// An aggregator for tests: as `new`, marked as made for tests.
    pub fn for_test() -> (a: Self)
        ensures
            a.entries() == Seq::<(FlowKey, FlowStats)>::empty(),
            a.wf(),
            a.names() == Map::<u32, Seq<char>>::empty(),
            a.domains() == Map::<IpAddr, Seq<char>>::empty(),
            a.interval_ms() == 2_000,
            a.in_test_mode(),
    {
        let a = Self::new();
        FlowAggregator { test_mode: true, ..a }
    }

    /// Registers the name of process `pid`.
    pub fn update_proc_name(&mut self, pid: u32, name: String)
        requires
            old(self).wf(),
        ensures
            final(self).names() == old(self).names().insert(pid, name@),
            final(self).entries() == old(self).entries(),
            final(self).wf(),
            final(self).domains() == old(self).domains(),
            final(self).interval_ms() == old(self).interval_ms(),
            final(self).in_test_mode() == old(self).in_test_mode(),
            final(self).timer() == old(self).timer(),
    {
        let ghost n = name@;
        self.proc_names.insert(pid, name);
        assert(self.names() =~= old(self).names().insert(pid, n));
    }

    /// Registers the process names of a snapshot, replacing names already
    /// registered for the same processes.
    pub fn update_proc_names(&mut self, map: HashMap<u32, String>)
        requires
            old(self).wf(),
        ensures
            final(self).names() == old(self).names().union_prefer_right(map@.map_values(|s: String| s@)),
            final(self).entries() == old(self).entries(),
            final(self).wf(),
            final(self).domains() == old(self).domains(),
            final(self).interval_ms() == old(self).interval_ms(),
            final(self).in_test_mode() == old(self).in_test_mode(),
            final(self).timer() == old(self).timer(),
    {
        let ghost old_names = self.names();
        let ghost m = map@;
        let ghost pairs = vstd::std_specs::iter::IteratorSpec::remaining(&vstd::std_specs::hash::spec_hash_map_iter(&map));
        for kv in it: map.iter()
            invariant
                it.seq() == pairs,
                self.entries() == old(self).entries(),
                self.domains() == old(self).domains(),
                self.interval_ms() == old(self).interval_ms(),
                self.in_test_mode() == old(self).in_test_mode(),
                self.timer() == old(self).timer(),
                pairs.len() == m.dom().len(),
                forall|j: int| 0 <= j < pairs.len() ==> m.contains_key(*pairs[j].0) && m[*pairs[j].0] == *pairs[j].1,
                forall|k: u32| m.contains_key(k) ==> pairs.contains((&k, &m[k])),
                forall|k: u32| #[trigger] self.names().contains_key(k) <==> (old_names.contains_key(k)
                    || exists|j: int| 0 <= j < it.index() && *pairs[j].0 == k),
                forall|k: u32| (exists|j: int| 0 <= j < it.index() && *pairs[j].0 == k) ==> #[trigger] self.names()[k] == m[k]@,
                forall|k: u32| !(exists|j: int| 0 <= j < it.index() && *pairs[j].0 == k) && old_names.contains_key(k)
                    ==> #[trigger] self.names()[k] == old_names[k],
        {
            let (k, v) = kv;
            let ghost pre = self.names();
            self.proc_names.insert(*k, v.clone());
            assert(self.names() =~= pre.insert(*k, m[*k]@));
        }
        assert(self.names() =~= old_names.union_prefer_right(m.map_values(|s: String| s@))) by {
            assert forall|k: u32| m.contains_key(k) implies exists|j: int| 0 <= j < pairs.len() && *pairs[j].0 == k by {
                assert(pairs.contains((&k, &m[k])));
                let j = choose|j: int| 0 <= j < pairs.len() && pairs[j] == (&k, &m[k]);
                assert(*pairs[j].0 == k);
            }
        }
    }

    /// Registers the domain that `ip` resolved to.
    pub fn update_domain(&mut self, ip: IpAddr, domain: String)
        requires
            old(self).wf(),
        ensures
            final(self).domains() == old(self).domains().insert(ip, domain@),
            final(self).entries() == old(self).entries(),
            final(self).wf(),
            final(self).names() == old(self).names(),
            final(self).interval_ms() == old(self).interval_ms(),
            final(self).in_test_mode() == old(self).in_test_mode(),
            final(self).timer() == old(self).timer(),
    {
        let ghost d = domain@;
        match ip {
            IpAddr::V4(a) => {
                self.domains_v4.insert(a, domain);
            },
            IpAddr::V6(b) => {
                self.domains_v6.insert(b, domain);
            },
        }
        assert(self.domains() =~= old(self).domains().insert(ip, d));
    }

    /// Whether `ev` can be observed without a byte count passing 64 bits.
    pub fn fits(&self, ev: &ConnEvent) -> (b: bool)
        requires
            self.wf(),
        ensures
            b == event_fits(stats_of(self.flows(), key_of(*ev)), *ev),
    {
        let key = FlowKey { pid: ev.pid, remote_ip: ev.remote_ip, remote_port: ev.remote_port, proto: ev.proto };
        let st = match find_key(&self.flows, &key) {
            Some(i) => {
                proof {
                    lemma_entries_map_index(self.flows@, i as int);
                }
                self.flows[i].1
            },
            None => {
                proof {
                    lemma_entries_map_contains(self.flows@, key);
                }
                FlowStats::default()
            },
        };
        match ev.direction {
            Direction::In => st.bytes_in <= u64::MAX - ev.bytes,
            Direction::Out => st.bytes_out <= u64::MAX - ev.bytes,
        }
    }

    /// Observes one event: adds its bytes to its flow in its direction and
    /// records its time as the flow's last seen.
    pub fn observe(&mut self, ev: ConnEvent)
        requires
            old(self).wf(),
            event_fits(stats_of(old(self).flows(), key_of(ev)), ev),
        ensures
            final(self).entries() == observed_entries(old(self).entries(), ev),
            final(self).wf(),
            final(self).flows() == observe_map(old(self).flows(), ev),
            final(self).names() == old(self).names(),
            final(self).domains() == old(self).domains(),
            final(self).interval_ms() == old(self).interval_ms(),
            final(self).in_test_mode() == old(self).in_test_mode(),
            final(self).timer() == old(self).timer(),
    {
        let key = FlowKey { pid: ev.pid, remote_ip: ev.remote_ip, remote_port: ev.remote_port, proto: ev.proto };
        let ghost s = self.flows@;
        match find_key(&self.flows, &key) {
            Some(i) => {
                proof {
                    lemma_entries_map_index(s, i as int);
                    lemma_entries_map_update(s, i as int, add_event(s[i as int].1, ev));
                    assert(has_key(s, key));
                    let c = choose|c: int| 0 <= c < s.len() && s[c].0 == key;
                    assert(c == i as int);
                    assert(distinct_keys(s.update(i as int, (key, add_event(s[i as int].1, ev)))));
                }
                let st = self.flows[i].1;
                let updated = add_to(st, &ev);
                self.flows.set(i, (key, updated));
            },
            None => {
                proof {
                    lemma_entries_map_contains(s, key);
                    assert(distinct_keys(s.push((key, add_event(zero_stats(), ev))))) by {
                        assert forall|a: int, b: int| 0 <= a < b < s.len() + 1 implies
                            #[trigger] s.push((key, add_event(zero_stats(), ev)))[a].0
                            != #[trigger] s.push((key, add_event(zero_stats(), ev)))[b].0 by {
                            if b == s.len() {
                                assert(s[a].0 != key);
                            }
                        }
                    }
                    assert(s.push((key, add_event(zero_stats(), ev))).drop_last() =~= s);
                }
                let updated = add_to(FlowStats::default(), &ev);
                self.flows.push((key, updated));
            },
        }
    }

    /// Whether a flush is due after `elapsed_ms` milliseconds since the last
    /// one: never for a test aggregator, whose auto-flush is disabled;
    /// otherwise once the flush interval has passed.
    pub fn flush_due(&self, elapsed_ms: u128) -> (b: bool)
        ensures
            b == (!self.in_test_mode() && elapsed_ms >= self.interval_ms()),
    {
        !self.test_mode && elapsed_ms >= self.flush_interval_ms as u128
    }

    /// Whether enough time has passed since the last flush to warrant one;
    /// never for a test aggregator.
    pub fn should_flush(&self) -> (b: bool)
        ensures
            self.in_test_mode() ==> !b,
    {
        let elapsed = elapsed_millis(&self.last_flush);
        self.flush_due(elapsed)
    }

    /// The label of rows of process `pid`.
    fn proc_label_of(&self, pid: u32) -> (s: String)
        ensures
            s@ == proc_label(self.names(), pid),
    {
        match self.proc_names.get(&pid) {
            Some(n) => n.clone(),
            None => {
                let mut s = String::new();
                s.append("pid:");
                push_decimal(&mut s, pid as u64);
                s
            },
        }
    }

    /// The domain registered for `ip`, if any.
    fn domain_of(&self, ip: IpAddr) -> (d: Option<String>)
        ensures
            domain_matches(d, self.domains(), ip),
    {
        match ip {
            IpAddr::V4(a) => match self.domains_v4.get(&a) {
                Some(s) => Some(s.clone()),
                None => None,
            },
            IpAddr::V6(b) => match self.domains_v6.get(&b) {
                Some(s) => Some(s.clone()),
                None => None,
            },
        }
    }

    /// Drains all flows into rows stamped with the start of the bucket of
    /// `now`, and restarts the flush timer at `at`.
    pub fn drain_into_rows_at(&mut self, now: i64, at: Instant) -> (rows: Vec<Row>)
        requires
            drain_ok(old(self).interval_ms()),
        ensures
            final(self).timer() == at,
            rows_describe(
                rows@,
                old(self).entries(),
                bucket_start(now as int, bucket_width(old(self).interval_ms())),
                old(self).names(),
                old(self).domains(),
            ),
            final(self).entries() == Seq::<(FlowKey, FlowStats)>::empty(),
            final(self).wf(),
            final(self).names() == old(self).names(),
            final(self).domains() == old(self).domains(),
            final(self).interval_ms() == old(self).interval_ms(),
            final(self).in_test_mode() == old(self).in_test_mode(),
    {
        let width = millis_as_width(self.flush_interval_ms);
        let bucket = bucket_of(now, width);
        let n = self.flows.len();
        let mut out: Vec<Row> = Vec::with_capacity(n);
        let mut i: usize = 0;
        while i < n
            invariant
                n == self.flows@.len(),
                0 <= i <= n,
                self == old(self),
                bucket == bucket_start(now as int, bucket_width(self.interval_ms())),
                rows_describe(out@, self.flows@.take(i as int), bucket as int, self.names(), self.domains()),
            decreases n - i,
        {
            let (key, stats) = self.flows[i];
            let proc_name = self.proc_label_of(key.pid);
            let domain = self.domain_of(key.remote_ip);
            out.push(Row {
                ts: bucket,
                pid: key.pid,
                proc_name,
                remote_ip: key.remote_ip,
                domain,
                dport: key.remote_port,
                proto: key.proto,
                bytes_in: stats.bytes_in,
                bytes_out: stats.bytes_out,
            });
            i = i + 1;
            assert forall|j: int| 0 <= j < out@.len() implies row_describes(
                #[trigger] out@[j],
                self.flows@.take(i as int)[j],
                bucket as int,
                self.names(),
                self.domains(),
            ) by {
                if j < i - 1 {
                    assert(self.flows@.take(i as int)[j] == self.flows@.take(i - 1)[j]);
                }
            }
        }
        assert(self.flows@.take(n as int) =~= self.flows@);
        self.flows.clear();
        self.last_flush = at;
        out
    }

    /// Drains all flows into rows stamped with the start of the current
    /// flush bucket, and resets the flush timer.
    pub fn drain_into_rows(&mut self) -> (rows: Vec<Row>)
        requires
            drain_ok(old(self).interval_ms()),
        ensures
            exists|now: i64|
                rows_describe(
                    rows@,
                    old(self).entries(),
                    bucket_start(now as int, bucket_width(old(self).interval_ms())),
                    old(self).names(),
                    old(self).domains(),
                ),
            final(self).entries() == Seq::<(FlowKey, FlowStats)>::empty(),
            final(self).wf(),
            final(self).names() == old(self).names(),
            final(self).domains() == old(self).domains(),
            final(self).interval_ms() == old(self).interval_ms(),
            final(self).in_test_mode() == old(self).in_test_mode(),
    {
        let now = crate::capture::now_ms();
        self.drain_into_rows_at(now, instant_now())
    }

    /// Drains all flows into rows stamped at `now`, restarting the flush
    /// timer at `at`, when a flush is due after `elapsed_ms` milliseconds
    /// since the last one; otherwise returns no rows and changes nothing. A
    /// test aggregator is never flushed here.
    pub fn flush_if_due(&mut self, elapsed_ms: u128, now: i64, at: Instant) -> (rows: Vec<Row>)
        requires
            old(self).wf(),
            drain_ok(old(self).interval_ms()),
        ensures
            final(self).wf(),
            if !old(self).in_test_mode() && elapsed_ms >= old(self).interval_ms() {
                &&& final(self).entries() == Seq::<(FlowKey, FlowStats)>::empty()
                &&& final(self).timer() == at
                &&& rows_describe(
                    rows@,
                    old(self).entries(),
                    bucket_start(now as int, bucket_width(old(self).interval_ms())),
                    old(self).names(),
                    old(self).domains(),
                )
            } else {
                &&& rows@.len() == 0
                &&& final(self).entries() == old(self).entries()
                &&& final(self).timer() == old(self).timer()
            },
            final(self).names() == old(self).names(),
            final(self).domains() == old(self).domains(),
            final(self).interval_ms() == old(self).interval_ms(),
            final(self).in_test_mode() == old(self).in_test_mode(),
    {
        if self.flush_due(elapsed_ms) {
            self.drain_into_rows_at(now, at)
        } else {
            Vec::new()
        }
    }

    /// If a flush is due, drains all flows into rows and restarts the flush
    /// timer; otherwise returns no rows and changes nothing. A test
    /// aggregator is never flushed here.
    pub fn maybe_flush(&mut self) -> (rows: Vec<Row>)
        requires
            old(self).wf(),
            drain_ok(old(self).interval_ms()),
        ensures
            final(self).wf(),
            old(self).in_test_mode() ==> rows@.len() == 0 && final(self).entries() == old(self).entries()
                && final(self).timer() == old(self).timer(),
            (rows@.len() == 0 && final(self).entries() == old(self).entries()) || (
            final(self).entries() == Seq::<(FlowKey, FlowStats)>::empty() && exists|now: i64|
                rows_describe(
                    rows@,
                    old(self).entries(),
                    bucket_start(now as int, bucket_width(old(self).interval_ms())),
                    old(self).names(),
                    old(self).domains(),
                )),
            final(self).names() == old(self).names(),
            final(self).domains() == old(self).domains(),
            final(self).interval_ms() == old(self).interval_ms(),
            final(self).in_test_mode() == old(self).in_test_mode(),
    {
        let elapsed = elapsed_millis(&self.last_flush);
        let now = crate::capture::now_ms();
        self.flush_if_due(elapsed, now, instant_now())
    }

    /// Drains all flows into rows regardless of the timer. Used on shutdown.
    pub fn flush_now(&mut self) -> (rows: Vec<Row>)
        requires
            drain_ok(old(self).interval_ms()),
        ensures
            exists|now: i64|
                rows_describe(
                    rows@,
                    old(self).entries(),
                    bucket_start(now as int, bucket_width(old(self).interval_ms())),
                    old(self).names(),
                    old(self).domains(),
                ),
            final(self).entries() == Seq::<(FlowKey, FlowStats)>::empty(),
            final(self).wf(),
            final(self).names() == old(self).names(),
            final(self).domains() == old(self).domains(),
            final(self).interval_ms() == old(self).interval_ms(),
            final(self).in_test_mode() == old(self).in_test_mode(),
    {
        self.drain_into_rows()
    }

    /// Number of distinct flows currently tracked.
    pub fn len(&self) -> (n: usize)
        requires
            self.wf(),
        ensures
            n == self.entries().len(),
            n == self.flows().len(),
    {
        proof {
            lemma_entries_map_len(self.flows@);
        }
        self.flows.len()
    }

    /// Whether no flow is tracked.
    pub fn is_empty(&self) -> (b: bool)
        requires
            self.wf(),
        ensures
            b == (self.entries().len() == 0),
            b == (self.flows() == Map::<FlowKey, FlowStats>::empty()),
    {
        proof {
            lemma_entries_map_len(self.flows@);
            if self.flows@.len() > 0 {
                lemma_entries_map_index(self.flows@, 0);
            }
            if self.flows@.len() == 0 {
                assert(self.flows() =~= Map::<FlowKey, FlowStats>::empty());
            }
        }
        self.flows.len() == 0
    }

    /// The tracked flows in the order they were first seen, without
    /// draining them.
    pub fn snapshot(&self) -> (s: Vec<(FlowKey, FlowStats)>)
        ensures
            s@ == self.entries(),
    {
        let n = self.flows.len();
        let mut out: Vec<(FlowKey, FlowStats)> = Vec::with_capacity(n);
        let mut i: usize = 0;
        while i < n
            invariant
                n == self.flows@.len(),
                0 <= i <= n,
                out@ == self.flows@.take(i as int),
            decreases n - i,
        {
            out.push(self.flows[i]);
            i = i + 1;
            assert(out@ =~= self.flows@.take(i as int));
        }
        assert(self.flows@.take(n as int) =~= self.flows@);
        out
    }
}

impl Default for FlowAggregator {
    /// As `FlowAggregator::new`.
    fn default() -> (a: Self)
        ensures
            a.entries() == Seq::<(FlowKey, FlowStats)>::empty(),
            a.wf(),
            a.names() == Map::<u32, Seq<char>>::empty(),
            a.domains() == Map::<IpAddr, Seq<char>>::empty(),
            a.interval_ms() == 2_000,
            !a.in_test_mode(),
    {
        Self::new()
    }
}

/// The number of keys of the map of distinct entries is their number.
pub proof fn lemma_entries_map_len(s: Seq<(FlowKey, FlowStats)>)
    requires
        distinct_keys(s),
    ensures
        entries_map(s).dom().finite(),
        entries_map(s).len() == s.len(),
    decreases s.len(),
{
    if s.len() > 0 {
        let init = s.drop_last();
        assert(distinct_keys(init)) by {
            assert forall|i: int, j: int| 0 <= i < j < init.len() implies init[i].0 != init[j].0 by {
                assert(init[i] == s[i] && init[j] == s[j]);
            }
        }
        lemma_entries_map_len(init);
        lemma_entries_map_contains(init, s.last().0);
        if has_key(init, s.last().0) {
            let i = choose|i: int| 0 <= i < init.len() && init[i].0 == s.last().0;
            assert(s[i].0 == s[s.len() - 1].0);
        }
    }
}

/// The milliseconds of a flush interval as a bucket width (`ms as i64`).
fn millis_as_width(ms: u64) -> (w: i64)
    ensures
        w == bucket_width(ms),
{
    #[verifier::truncate]
    (ms as i64)
}

pub proof fn lemma_trunc_div_bounds(x: int, d: int)
    requires
        d != 0,
    ensures
        x >= 0 ==> 0 <= trunc_div(x, d) * d <= x,
        x < 0 ==> x <= trunc_div(x, d) * d <= 0,
        -(if x < 0 { -x } else { x }) <= trunc_div(x, d) <= (if x < 0 { -x } else { x }),
        x < 0 && d > 0 ==> trunc_div(x, d) <= 0,
        x < 0 && d <= -2 ==> 0 <= trunc_div(x, d) * 2 <= -x,
{
    if x > 0 && d > 0 {
        assert(0 <= (x / d) * d <= x && 0 <= x / d <= x) by (nonlinear_arith)
            requires
                x > 0,
                d > 0,
        ;
    } else if x < 0 && d < 0 {
        let nx = -x;
        let nd = -d;
        assert(0 <= (nx / nd) * nd <= nx && 0 <= nx / nd <= nx) by (nonlinear_arith)
            requires
                nx > 0,
                nd > 0,
        ;
        assert(nd >= 2 ==> (nx / nd) * 2 <= nx) by (nonlinear_arith)
            requires
                nx > 0,
                nd > 0,
        ;
        assert((x * -1) / (d * -1) == nx / nd);
        assert((nx / nd) * d == -((nx / nd) * nd)) by (nonlinear_arith)
            requires
                nd == -d,
        ;
    } else if x < 0 {
        let nx = -x;
        assert(0 <= (nx / d) * d <= nx && 0 <= nx / d <= nx) by (nonlinear_arith)
            requires
                nx > 0,
                d > 0,
        ;
        assert((x * -1) / d == nx / d);
        assert(((nx / d) * -1) * d == -((nx / d) * d)) by (nonlinear_arith);
    } else if x > 0 {
        let nd = -d;
        assert(0 <= (x / nd) * nd <= x && 0 <= x / nd <= x) by (nonlinear_arith)
            requires
                x > 0,
                nd > 0,
        ;
        assert(x / (d * -1) == x / nd);
        assert(((x / nd) * -1) * d == (x / nd) * nd) by (nonlinear_arith)
            requires
                nd == -d,
        ;
    }
}

/// The start of the bucket of width `width` that holds `now`.
pub fn bucket_of(now: i64, width: i64) -> (b: i64)
    requires
        width != 0,
    ensures
        b == bucket_start(now as int, width as int),
{
    if width == -1 {
        proof {
            lemma_bucket_of_minus_one(now as int);
        }
        return now;
    }
    proof {
        lemma_trunc_div_bounds(now as int, width as int);
    }
    let q = now.checked_div(width).unwrap();
    q * width
}

/// With a width of -1 every time is its own bucket.
proof fn lemma_bucket_of_minus_one(x: int)
    ensures
        bucket_start(x, -1) == x,
{
    assert((-1int) * -1 == 1);
    assert(x / 1 == x) by (nonlinear_arith);
    assert((x * -1) / 1 == x * -1) by (nonlinear_arith);
    if x > 0 {
        assert(trunc_div(x, -1) == -x);
    } else if x < 0 {
        assert(trunc_div(x, -1) == -x);
    }
}

} // verus!
