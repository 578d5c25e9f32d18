use bandwith::capture::etw::{
    bytes_to_ip, classify_event, decode_event, etw_ts_to_ms, ipv4_mapped, EtwCapture, EventFields, EventOutcome,
};
use bandwith::capture::process::{
    next_pid_buffer, proc_infos_from, wants_name, PidBufferStep, ProcInfo, ProcessCache, SnapshotError,
    INITIAL_PID_BUFFER_BYTES,
};
use bandwith::capture::{Direction, Proto};
use bandwith::net::IpAddr;

fn info(pid: u32, name: &str) -> ProcInfo {
    ProcInfo { pid, name: name.to_string() }
}

#[test]
fn refresh_replaces_names_and_keeps_them_on_error() {
    let mut c = ProcessCache::new();
    assert!(c.is_empty());
    assert!(c.refresh(Ok(vec![info(4, "a.exe"), info(9, "b.exe"), info(4, "c.exe")])).is_ok());
    assert_eq!(c.len(), 2);
    assert_eq!(c.name(4), Some("c.exe"));
    assert_eq!(c.name(9), Some("b.exe"));
    assert_eq!(c.name(5), None);
    let r = c.refresh(Err(SnapshotError::TooManyPids));
    assert!(matches!(r, Err(SnapshotError::TooManyPids)));
    assert_eq!(c.len(), 2);
    assert!(c.refresh(Ok(vec![info(1, "x.exe")])).is_ok());
    assert_eq!(c.name(4), None);
    let m = c.snapshot_map();
    assert_eq!(m.len(), 1);
    assert_eq!(m.get(&1).map(|s| s.as_str()), Some("x.exe"));
}

#[test]
fn capture_starts_with_first_snapshot() {
    let cap = EtwCapture::new(Ok(vec![info(10, "svc.exe")]));
    assert_eq!(cap.into_proc_cache().name(10), Some("svc.exe"));
    let cap = EtwCapture::new(Err(SnapshotError::EnumFailed("denied".to_string())));
    assert!(cap.into_proc_cache().is_empty());
}

#[test]
fn pid_buffer_grows_until_large_enough() {
    assert_eq!(next_pid_buffer(INITIAL_PID_BUFFER_BYTES, 400), PidBufferStep::Done(100));
    assert_eq!(next_pid_buffer(INITIAL_PID_BUFFER_BYTES, 65_536), PidBufferStep::Retry(131_072));
    assert_eq!(next_pid_buffer(4_194_304, 4_194_304), PidBufferStep::TooMany);
    assert_eq!(next_pid_buffer(2_097_152, 2_097_152), PidBufferStep::Retry(4_194_304));
    assert_eq!(next_pid_buffer(usize::MAX, u32::MAX), PidBufferStep::Done(1_073_741_823));
}

#[test]
fn snapshot_rows_skip_idle_and_unnamed() {
    assert!(!wants_name(0));
    assert!(wants_name(4));
    let rows = proc_infos_from(&vec![0, 4, 8, 12], &vec![Some("idle".to_string()), Some("sys".to_string()), None, Some("app.exe".to_string())]);
    let got: Vec<(u32, String)> = rows.into_iter().map(|p| (p.pid, p.name)).collect();
    assert_eq!(got, vec![(4, "sys".to_string()), (12, "app.exe".to_string())]);
}

#[test]
fn event_ids_map_to_protocol_and_direction() {
    assert_eq!(classify_event(12), Some((Proto::Tcp, Direction::Out)));
    assert_eq!(classify_event(31), Some((Proto::Tcp, Direction::In)));
    assert_eq!(classify_event(26), Some((Proto::Udp, Direction::Out)));
    assert_eq!(classify_event(29), Some((Proto::Udp, Direction::In)));
    assert_eq!(classify_event(14), None);
}

#[test]
fn filetime_converts_to_unix_millis() {
    assert_eq!(etw_ts_to_ms(116_444_736_000_000_000), Some(0));
    assert_eq!(etw_ts_to_ms(133_444_736_000_000_000), Some(1_700_000_000_000));
    assert_eq!(etw_ts_to_ms(116_444_735_999_990_000), None);
    assert_eq!(etw_ts_to_ms(-5), None);
}

#[test]
fn address_bytes_decode() {
    assert_eq!(bytes_to_ip(&[8, 8, 4, 4]), Some(IpAddr::v4(8, 8, 4, 4)));
    let mut mapped = [0u8; 16];
    mapped[10] = 0xff;
    mapped[11] = 0xff;
    mapped[12..].copy_from_slice(&[1, 2, 3, 4]);
    assert_eq!(ipv4_mapped(&mapped), Some(IpAddr::v4(1, 2, 3, 4)));
    assert_eq!(bytes_to_ip(&mapped), Some(IpAddr::v4(1, 2, 3, 4)));
    let v6: [u8; 16] = [0x26, 0x06, 0x47, 0, 0x47, 0, 0, 0, 0, 0, 0, 0, 0, 0, 0x11, 0x11];
    assert_eq!(ipv4_mapped(&v6), None);
    assert_eq!(bytes_to_ip(&v6), Some(IpAddr::v6([0x2606, 0x4700, 0x4700, 0, 0, 0, 0, 0x1111])));
    assert_eq!(bytes_to_ip(&[1, 2, 3]), None);
}

#[test]
fn events_decode_or_report_why_not() {
    let fields = EventFields {
        pid: None,
        header_pid: 77,
        size: Some(1400),
        dport: Some(443),
        daddr: Some(vec![1, 1, 1, 1]),
        raw_timestamp: 116_444_736_000_010_000,
    };
    match decode_event(13, &fields, 5) {
        EventOutcome::Parsed(ev) => {
            assert_eq!(ev.pid, 77);
            assert_eq!(ev.bytes, 1400);
            assert_eq!(ev.ts_ms, 1);
            assert_eq!(ev.remote_ip, IpAddr::v4(1, 1, 1, 1));
            assert_eq!(ev.direction, Direction::In);
            assert_eq!(ev.proto, Proto::Tcp);
        },
        other => panic!("unexpected {:?}", other),
    }
    assert!(matches!(decode_event(99, &fields, 5), EventOutcome::Skipped));
    let before_epoch = EventFields { raw_timestamp: 0, pid: Some(3), ..fields };
    match decode_event(26, &before_epoch, 5) {
        EventOutcome::Parsed(ev) => {
            assert_eq!(ev.ts_ms, 5);
            assert_eq!(ev.pid, 3);
        },
        other => panic!("unexpected {:?}", other),
    }
    let no_size = EventFields { size: None, ..before_epoch };
    assert!(matches!(decode_event(26, &no_size, 5), EventOutcome::ParseFailed));
    let bad_addr = EventFields { size: Some(1), daddr: Some(vec![1, 2]), ..no_size };
    assert!(matches!(decode_event(26, &bad_addr, 5), EventOutcome::BadAddress));
}
