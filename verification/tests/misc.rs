use bandwith::cli::{run_mode, window_start, Args, QueryCmd, RunMode};
use bandwith::config::Config;
use bandwith::demo::{demo_aggregator, demo_rows};
use bandwith::paths::app_dir_under;
use bandwith::store::query::{count_from_sql, limit_to_sql, top_rows_from};
use bandwith::store::schema::{migrations, SCHEMA_VERSION};
use bandwith::store::{Query, QueryError, Writer};

fn args(command: Option<QueryCmd>, demo: bool, headless: bool) -> Args {
    Args { command, headless, demo, config: None, shutdown_after: None }
}

#[test]
fn run_mode_prefers_query_then_demo_then_headless() {
    let q = QueryCmd::Totals { last: 60 };
    assert_eq!(run_mode(&args(Some(q), true, true)), RunMode::Query(q));
    assert_eq!(run_mode(&args(None, true, true)), RunMode::Demo);
    assert_eq!(run_mode(&args(None, false, true)), RunMode::Headless);
    assert_eq!(run_mode(&args(None, false, false)), RunMode::Gui);
}

#[test]
fn query_window_start() {
    assert_eq!(window_start(1_700_000_000_000, 60), Some(1_699_999_940_000));
    assert_eq!(window_start(0, i64::MAX), None);
    assert_eq!(window_start(i64::MIN, 1), None);
}

#[test]
fn demo_rows_are_deterministic() {
    let a = demo_rows(1_000_000);
    let b = demo_rows(1_000_000);
    assert_eq!(a.len(), 1000);
    assert_eq!(a[0].ts, 1_000_000 - 10_000);
    assert_eq!(a[999].ts, 1_000_000 - 10);
    for (x, y) in a.iter().zip(b.iter()) {
        assert_eq!(x.pid, y.pid);
        assert_eq!(x.bytes_in, y.bytes_in);
        assert!(x.pid >= 1000 && x.pid < 1100);
        assert!(x.bytes_in < 50000 && x.bytes_out < 5000);
        assert_eq!(x.dport, 443);
    }
    let mut s: u64 = 0x9E37_79B9_7F4A_7C15;
    s ^= s << 13;
    s ^= s >> 7;
    s ^= s << 17;
    let r1 = s;
    assert_eq!(a[0].pid, 1000 + (r1 as u32 % 100));
}

#[test]
fn sql_values_convert() {
    assert_eq!(count_from_sql(5), 5);
    assert_eq!(count_from_sql(-1), u64::MAX);
    assert_eq!(limit_to_sql(10), 10);
    let rows = top_rows_from(vec![("a.com".to_string(), 10, 2), ("b.com".to_string(), 1, 0)]);
    assert_eq!(rows.len(), 2);
    assert_eq!(rows[0].key, "a.com");
    assert_eq!(rows[0].bytes_in, 10);
    assert_eq!(rows[1].bytes_out, 0);
}

#[test]
fn schema_has_meta_and_flow_tables() {
    assert_eq!(SCHEMA_VERSION, 1);
    let m = migrations();
    assert_eq!(m.len(), 2);
    assert!(m[0].starts_with("CREATE TABLE IF NOT EXISTS _meta"));
    assert!(m[1].starts_with("CREATE TABLE IF NOT EXISTS flows"));
}

#[test]
fn open_in_memory_creates_schema() {
    let q = Query::open_in_memory_for_test().unwrap();
    assert_eq!(q.count().unwrap(), 0);
    assert_eq!(q.total_since(0).unwrap(), (0, 0));
    assert!(q.top_domains(0, 5).unwrap().is_empty());
}

fn store_with(rows: &[(i64, u32, &str, Option<&str>, u64, u64)]) -> Query {
    let conn = rusqlite::Connection::open_in_memory().unwrap();
    for m in migrations() {
        conn.execute_batch(m).unwrap();
    }
    for (ts, pid, proc_name, domain, bin, bout) in rows {
        conn.execute(
            "INSERT OR IGNORE INTO flows (ts, pid, proc_name, remote_ip, domain, dport, proto, bytes_in, bytes_out) VALUES (?1, ?2, ?3, '1.1.1.1', ?4, 443, 'tcp', ?5, ?6)",
            (ts, *pid as i64, proc_name, domain, *bin as i64, *bout as i64),
        )
        .unwrap();
    }
    Query::from_connection(conn)
}

#[test]
fn top_domains_orders_by_bytes() {
    let ts = 1_700_000_000_000i64;
    let q = store_with(&[
        (ts, 1, "a.exe", Some("big.com"), 10000, 0),
        (ts, 2, "a.exe", Some("med.com"), 1000, 0),
        (ts, 3, "a.exe", Some("sml.com"), 100, 0),
        (ts, 4, "b.exe", None, 5, 0),
    ]);
    let top = q.top_domains(ts - 1, 10).unwrap();
    assert_eq!(top[0].key, "big.com");
    assert_eq!(top[1].key, "med.com");
    assert_eq!(top[2].key, "sml.com");
    assert_eq!(top[3].key, "1.1.1.1");
    assert_eq!(top[0].bytes_in, 10000);
    assert_eq!(q.top_domains(ts - 1, 2).unwrap().len(), 2);
    assert!(q.top_domains(ts + 1, 10).unwrap().is_empty());
}

#[test]
fn query_duplicate_key_is_ignored_and_processes_sum() {
    let ts = 1_700_000_000_000i64;
    let q = store_with(&[
        (ts, 1, "chrome.exe", Some("example.com"), 1000, 100),
        (ts, 1, "chrome.exe", Some("example.com"), 500, 50),
        (ts + 1, 1, "chrome.exe", Some("example.com"), 7, 3),
        (ts, 2, "other.exe", None, 1, 1),
    ]);
    assert_eq!(q.count().unwrap(), 3);
    let top = q.top_processes(ts - 1, 10).unwrap();
    assert_eq!(top.len(), 2);
    assert_eq!(top[0].key, "chrome.exe");
    assert_eq!(top[0].bytes_in, 1007);
    assert_eq!(top[0].bytes_out, 103);
    assert_eq!(q.total_since(ts).unwrap(), (1008, 104));
}

#[test]
fn rate_series_buckets() {
    let t0 = 1_700_000_000_000i64;
    let rows: Vec<(i64, u32, &str, Option<&str>, u64, u64)> =
        (0..10).map(|i| (t0 + i * 100, 1, "p", Some("d"), 100, 0)).collect();
    let q = store_with(&rows);
    let series = q.rate_series(t0 - 1, 100).unwrap();
    assert_eq!(series.len(), 10);
    assert_eq!(series[0].ts, (t0 / 100) * 100);
    assert_eq!(series[9].ts, ((t0 + 900) / 100) * 100);
    assert_eq!(series.iter().map(|p| p.bytes_in).sum::<u64>(), 1000);
    let coarse = q.rate_series(t0 - 1, 1000).unwrap();
    assert_eq!(coarse.len(), 1);
    assert_eq!(coarse[0].bytes_in, 1000);
}

#[test]
fn tempfile_insert_and_query() {
    let ts = 1_700_000_000_000i64;
    let q = store_with(&[
        (ts, 1, "chrome.exe", Some("example.com"), 1000, 100),
        (ts, 1, "chrome.exe", Some("example.com"), 500, 50),
    ]);
    assert_eq!(q.count().unwrap(), 1, "duplicate PK should be ignored");
    let top = q.top_processes(ts - 1, 10).unwrap();
    assert_eq!(top.len(), 1);
    assert_eq!(top[0].key, "chrome.exe");
}

#[test]
fn duplicate_pk_is_noop() {
    let ts = 1_700_000_000_000i64;
    let row = (ts, 1, "chrome.exe", Some("example.com"), 100, 50);
    let q = store_with(&[row, row, row, row, row]);
    assert_eq!(q.count().unwrap(), 1);
}

#[test]
fn opening_a_missing_database_fails() {
    assert!(matches!(Query::open("/nonexistent/dir/bandwith.db"), Err(QueryError::Sqlite(_))));
}

#[test]
fn config_load_gives_defaults_and_writer_opens() {
    let c = Config::load(&app_dir_under(None));
    assert!(c.raw.as_table().map(|t| t.is_empty()).unwrap_or(false));
    let _w = Writer::open("/tmp/x.db");
}

#[test]
fn demo_aggregator_holds_one_named_flow() {
    let mut a = demo_aggregator(1_000_000);
    assert_eq!(a.len(), 1);
    let rows = a.flush_now();
    assert_eq!(rows.len(), 1);
    assert_eq!(rows[0].pid, 9000);
    assert_eq!(rows[0].proc_name, "demo_proc.exe");
    assert_eq!(rows[0].bytes_in, 5000);
    assert_eq!(rows[0].bytes_out, 5000);
    assert_eq!(rows[0].dport, 443);
}
