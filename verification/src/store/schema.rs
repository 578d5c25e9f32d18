//! Schema definitions and migrations.

use vstd::prelude::*;

verus! {

/// The version of the schema these statements build.
pub const SCHEMA_VERSION: i32 = 1;

/// The metadata table.
pub const CREATE_META: &'static str = "CREATE TABLE IF NOT EXISTS _meta (key TEXT PRIMARY KEY, value TEXT NOT NULL)";

/// The flow table: one row per process, remote endpoint and protocol per
/// time bucket; a second row with the same key is ignored.
pub const CREATE_FLOWS: &'static str = "CREATE TABLE IF NOT EXISTS flows (ts INTEGER NOT NULL, pid INTEGER NOT NULL, proc_name TEXT NOT NULL, remote_ip TEXT NOT NULL, domain TEXT, dport INTEGER NOT NULL, proto TEXT NOT NULL, bytes_in INTEGER NOT NULL, bytes_out INTEGER NOT NULL, PRIMARY KEY (ts, pid, remote_ip, dport, proto))";

/// The SQL statements applied on open, in order: the metadata table, then
/// the flow table.
pub fn migrations() -> (m: Vec<&'static str>)
    ensures
        m@.len() == 2,
        m@[0]@ == CREATE_META@,
        m@[1]@ == CREATE_FLOWS@,
{
    let mut m: Vec<&'static str> = Vec::new();
    m.push(CREATE_META);
    m.push(CREATE_FLOWS);
    m
}

} // verus!
