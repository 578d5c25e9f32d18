use bandwith::capture::flow::{FlowAggregator, FlowKey};
use bandwith::capture::pipeline::{on_received, on_resolved, refresh_and_flush, Next, Received};
use bandwith::capture::process::{ProcInfo, ProcessCache, SnapshotError};
use bandwith::dns::ResolveResult;
use bandwith::capture::{now_ms, ConnEvent, Direction, Proto};
use bandwith::net::IpAddr;
use std::collections::HashMap;
use std::time::Instant;

fn ip(a: u8, b: u8, c: u8, d: u8) -> IpAddr {
    IpAddr::v4(a, b, c, d)
}

fn ev(pid: u32, addr: IpAddr, port: u16, dir: Direction, bytes: u64) -> ConnEvent {
    ConnEvent { ts_ms: now_ms(), pid, proto: Proto::Tcp, remote_ip: addr, remote_port: port, bytes, direction: dir }
}

#[test]
fn aggregates_bytes_by_direction() {
    let mut a = FlowAggregator::for_test();
    a.observe(ev(1, ip(1, 1, 1, 1), 443, Direction::In, 1500));
    a.observe(ev(1, ip(1, 1, 1, 1), 443, Direction::In, 500));
    a.observe(ev(1, ip(1, 1, 1, 1), 443, Direction::Out, 200));
    let snap = a.snapshot();
    assert_eq!(snap.len(), 1);
    let (_, stats) = &snap[0];
    assert_eq!(stats.bytes_in, 2000);
    assert_eq!(stats.bytes_out, 200);
}

#[test]
fn distinct_flows_are_tracked_separately() {
    let mut a = FlowAggregator::for_test();
    a.observe(ev(1, ip(1, 1, 1, 1), 443, Direction::In, 100));
    a.observe(ev(1, ip(1, 1, 1, 1), 80, Direction::In, 200));
    a.observe(ev(2, ip(1, 1, 1, 1), 443, Direction::In, 300));
    a.observe(ev(1, ip(2, 2, 2, 2), 443, Direction::In, 400));
    // Same key as the first event, other direction: collapses into flow 1.
    a.observe(ev(1, ip(1, 1, 1, 1), 443, Direction::Out, 50));
    assert_eq!(a.len(), 4);

    let snap = a.snapshot();
    let flow1 = snap
        .iter()
        .find(|(k, _)| k.pid == 1 && k.remote_ip == ip(1, 1, 1, 1) && k.remote_port == 443)
        .expect("flow 1 should exist");
    assert_eq!(flow1.1.bytes_in, 100);
    assert_eq!(flow1.1.bytes_out, 50);
}

#[test]
fn drain_clears_state() {
    let mut a = FlowAggregator::for_test();
    a.observe(ev(1, ip(1, 1, 1, 1), 443, Direction::In, 100));
    let rows = a.drain_into_rows();
    assert_eq!(rows.len(), 1);
    assert!(a.is_empty());
}

#[test]
fn rows_carry_proc_name_or_fallback() {
    let mut a = FlowAggregator::for_test();
    a.update_proc_name(42, "chrome.exe".to_string());
    a.observe(ev(42, ip(1, 1, 1, 1), 443, Direction::In, 100));
    a.observe(ev(99, ip(1, 1, 1, 1), 443, Direction::In, 200));
    let rows = a.drain_into_rows();
    let mut by_pid: HashMap<u32, String> = rows.iter().map(|r| (r.pid, r.proc_name.clone())).collect();
    assert_eq!(by_pid.remove(&42).unwrap(), "chrome.exe");
    assert_eq!(by_pid.remove(&99).unwrap(), "pid:99");
}

#[test]
fn rows_carry_resolved_domain_when_known() {
    let mut a = FlowAggregator::for_test();
    a.update_domain(ip(1, 1, 1, 1), "one.one.one.one".to_string());
    a.observe(ev(1, ip(1, 1, 1, 1), 443, Direction::In, 100));
    let rows = a.drain_into_rows();
    assert_eq!(rows[0].domain.as_deref(), Some("one.one.one.one"));
}

#[test]
fn flow_totals_are_sums_per_key_over_many_events() {
    let mut a = FlowAggregator::new();
    let mut want_in: HashMap<(u32, u16), u64> = HashMap::new();
    let mut want_out: HashMap<(u32, u16), u64> = HashMap::new();
    for i in 0..60u64 {
        let pid = (i % 3) as u32;
        let port = 400 + (i % 2) as u16;
        let dir = if i % 5 == 0 { Direction::Out } else { Direction::In };
        let e = ev(pid, ip(9, 9, 9, 9), port, dir, i * 7);
        assert!(a.fits(&e));
        a.observe(e);
        match dir {
            Direction::In => *want_in.entry((pid, port)).or_insert(0) += i * 7,
            Direction::Out => *want_out.entry((pid, port)).or_insert(0) += i * 7,
        }
    }
    assert_eq!(a.len(), 6);
    for (k, s) in a.snapshot() {
        assert_eq!(s.bytes_in, *want_in.get(&(k.pid, k.remote_port)).unwrap_or(&0));
        assert_eq!(s.bytes_out, *want_out.get(&(k.pid, k.remote_port)).unwrap_or(&0));
    }
}

#[test]
fn observe_keeps_first_seen_order_and_last_seen_time() {
    let mut a = FlowAggregator::for_test();
    let mut e1 = ev(5, ip(3, 3, 3, 3), 53, Direction::In, 10);
    e1.ts_ms = 100;
    let mut e2 = ev(6, ip(3, 3, 3, 3), 53, Direction::In, 10);
    e2.ts_ms = 200;
    let mut e3 = ev(5, ip(3, 3, 3, 3), 53, Direction::Out, 4);
    e3.ts_ms = 300;
    a.observe(e1);
    a.observe(e2);
    a.observe(e3);
    let snap = a.snapshot();
    assert_eq!(snap[0].0.pid, 5);
    assert_eq!(snap[0].1.last_seen_ms, 300);
    assert_eq!(snap[1].0.pid, 6);
    assert_eq!(snap[1].1.last_seen_ms, 200);
}

#[test]
fn fits_refuses_overflowing_event() {
    let mut a = FlowAggregator::for_test();
    a.observe(ev(1, ip(1, 1, 1, 1), 443, Direction::In, u64::MAX - 5));
    assert!(a.fits(&ev(1, ip(1, 1, 1, 1), 443, Direction::In, 5)));
    assert!(!a.fits(&ev(1, ip(1, 1, 1, 1), 443, Direction::In, 6)));
    assert!(a.fits(&ev(1, ip(1, 1, 1, 1), 443, Direction::Out, u64::MAX)));
}

#[test]
fn drain_at_buckets_timestamp_and_labels_rows() {
    let mut a = FlowAggregator::with_interval(1000);
    a.update_proc_name(7, "svc.exe".to_string());
    a.update_domain(IpAddr::v6([0x2606, 0x4700, 0, 0, 0, 0, 0, 1]), "v6.example".to_string());
    a.observe(ev(7, IpAddr::v6([0x2606, 0x4700, 0, 0, 0, 0, 0, 1]), 443, Direction::Out, 9));
    a.observe(ev(8, ip(8, 8, 8, 8), 53, Direction::In, 3));
    let rows = a.drain_into_rows_at(1_700_000_123_456, Instant::now());
    assert_eq!(rows.len(), 2);
    assert_eq!(rows[0].ts, 1_700_000_123_000);
    assert_eq!(rows[0].proc_name, "svc.exe");
    assert_eq!(rows[0].domain.as_deref(), Some("v6.example"));
    assert_eq!(rows[0].bytes_out, 9);
    assert_eq!(rows[1].proc_name, "pid:8");
    assert_eq!(rows[1].domain, None);
    assert_eq!(rows[1].dport, 53);
    assert!(a.is_empty());
    // Truncating division: a negative time rounds toward zero.
    a.observe(ev(8, ip(8, 8, 8, 8), 53, Direction::In, 3));
    let rows = a.drain_into_rows_at(-1500, Instant::now());
    assert_eq!(rows[0].ts, -1000);
}

#[test]
fn update_proc_names_overrides_existing() {
    let mut a = FlowAggregator::for_test();
    a.update_proc_name(1, "old.exe".to_string());
    a.update_proc_name(2, "keep.exe".to_string());
    let mut m = HashMap::new();
    m.insert(1u32, "new.exe".to_string());
    m.insert(3u32, "third.exe".to_string());
    a.update_proc_names(m);
    for pid in [1u32, 2, 3] {
        a.observe(ev(pid, ip(1, 1, 1, 1), 443, Direction::In, 1));
    }
    let rows = a.flush_now();
    let names: Vec<String> = rows.iter().map(|r| r.proc_name.clone()).collect();
    assert_eq!(names, vec!["new.exe".to_string(), "keep.exe".to_string(), "third.exe".to_string()]);
}

#[test]
fn flush_due_compares_elapsed_with_interval() {
    let a = FlowAggregator::new();
    assert!(!a.flush_due(1999));
    assert!(a.flush_due(2000));
    let mut b = FlowAggregator::with_interval(3_600_000);
    b.observe(ev(1, ip(1, 1, 1, 1), 443, Direction::In, 1));
    // A fresh aggregator is not due within an hour: nothing is drained.
    let rows = b.maybe_flush();
    assert!(rows.is_empty());
    assert_eq!(b.len(), 1);
}

#[test]
fn key_ignores_direction() {
    let k1 = FlowKey { pid: 1, remote_ip: ip(1, 2, 3, 4), remote_port: 9, proto: Proto::Udp };
    let mut a = FlowAggregator::default();
    let mut e = ev(1, ip(1, 2, 3, 4), 9, Direction::In, 5);
    e.proto = Proto::Udp;
    a.observe(e);
    e.direction = Direction::Out;
    a.observe(e);
    let snap = a.snapshot();
    assert_eq!(snap.len(), 1);
    assert_eq!(snap[0].0, k1);
}

#[test]
fn proto_and_direction_names() {
    assert_eq!(Proto::Tcp.as_str(), "tcp");
    assert_eq!(Proto::Udp.as_str(), "udp");
    assert_eq!(Direction::In.as_str(), "in");
    assert_eq!(Direction::Out.as_str(), "out");
}

#[test]
fn flush_if_due_drains_only_when_due() {
    let mut a = FlowAggregator::with_interval(500);
    a.observe(ev(1, ip(1, 1, 1, 1), 443, Direction::In, 10));
    let rows = a.flush_if_due(499, 10_250, Instant::now());
    assert!(rows.is_empty());
    assert_eq!(a.len(), 1);
    let rows = a.flush_if_due(500, 10_250, Instant::now());
    assert_eq!(rows.len(), 1);
    assert_eq!(rows[0].ts, 10_000);
    assert!(a.is_empty());
}

#[test]
fn consecutive_drains_report_deltas() {
    let mut a = FlowAggregator::for_test();
    a.observe(ev(1, ip(1, 1, 1, 1), 443, Direction::In, 100));
    a.observe(ev(1, ip(1, 1, 1, 1), 443, Direction::In, 50));
    let first = a.drain_into_rows_at(4_000, Instant::now());
    assert_eq!(first[0].bytes_in, 150);
    a.observe(ev(1, ip(1, 1, 1, 1), 443, Direction::In, 7));
    let second = a.drain_into_rows_at(6_000, Instant::now());
    assert_eq!(second.len(), 1);
    assert_eq!(second[0].bytes_in, 7);
    assert_eq!(second[0].ts, 6_000);
}

#[test]
fn pipeline_observes_events_and_flushes_with_fresh_names() {
    let mut agg = FlowAggregator::for_test();
    let mut cache = ProcessCache::new();
    let e = ev(11, ip(5, 6, 7, 8), 443, Direction::In, 40);
    assert_eq!(on_received(&mut agg, Received::Event(e)), Next::Resolve(ip(5, 6, 7, 8)));
    assert_eq!(agg.len(), 1);
    on_resolved(&mut agg, ResolveResult { ip: ip(5, 6, 7, 8), name: Some("host.example".to_string()) });
    on_resolved(&mut agg, ResolveResult { ip: ip(9, 9, 9, 9), name: None });
    assert_eq!(on_received(&mut agg, Received::Timeout), Next::RefreshThenFlush);
    assert_eq!(on_received(&mut agg, Received::Disconnected), Next::RefreshThenFinalFlush);
    let rows = refresh_and_flush(
        &mut agg,
        &mut cache,
        Ok(vec![ProcInfo { pid: 11, name: "app.exe".to_string() }]),
        true,
    );
    assert_eq!(rows.len(), 1);
    assert_eq!(rows[0].proc_name, "app.exe");
    assert_eq!(rows[0].domain.as_deref(), Some("host.example"));
    assert_eq!(cache.name(11), Some("app.exe"));
    assert!(agg.is_empty());
    // A failed snapshot keeps the names already known.
    agg.observe(ev(11, ip(5, 6, 7, 8), 443, Direction::Out, 1));
    let rows = refresh_and_flush(&mut agg, &mut cache, Err(SnapshotError::TooManyPids), true);
    assert_eq!(rows[0].proc_name, "app.exe");
    assert_eq!(cache.len(), 1);
}

#[test]
fn test_aggregator_never_auto_flushes() {
    let mut a = FlowAggregator::for_test();
    a.observe(ev(1, ip(1, 1, 1, 1), 443, Direction::In, 10));
    assert!(!a.flush_due(u128::MAX));
    assert!(!a.should_flush());
    let rows = a.flush_if_due(10_000, 10_250, Instant::now());
    assert!(rows.is_empty());
    assert_eq!(a.len(), 1);
    assert!(a.maybe_flush().is_empty());
    assert_eq!(a.len(), 1);
    // An explicit drain still empties it.
    assert_eq!(a.flush_now().len(), 1);
    assert!(a.is_empty());
}

#[test]
fn longest_interval_stamps_rows_with_their_time() {
    let mut a = FlowAggregator::with_interval(u64::MAX);
    a.observe(ev(1, ip(1, 1, 1, 1), 443, Direction::In, 10));
    let rows = a.drain_into_rows_at(1_234_567, Instant::now());
    assert_eq!(rows[0].ts, 1_234_567);
    a.observe(ev(1, ip(1, 1, 1, 1), 443, Direction::In, 10));
    let rows = a.drain_into_rows_at(i64::MIN, Instant::now());
    assert_eq!(rows[0].ts, i64::MIN);
    a.observe(ev(1, ip(1, 1, 1, 1), 443, Direction::Out, 3));
    assert_eq!(a.flush_now().len(), 1);
}
