//! Rows written to the flow table.

use vstd::prelude::*;

use crate::capture::Proto;
use crate::net::IpAddr;

verus! {

/// One aggregated row of the flow table: the bytes a process exchanged
/// with one remote endpoint within one time bucket.
#[derive(Debug)]
pub struct Row {
    pub ts: i64,
    pub pid: u32,
    pub proc_name: String,
    pub remote_ip: IpAddr,
    pub domain: Option<String>,
    pub dport: u16,
    pub proto: Proto,
    pub bytes_in: u64,
    pub bytes_out: u64,
}

/// The database writer's handle on its file.
#[derive(Debug)]
pub struct Writer {
    path: String,
}

impl Writer {
    /// The path of the database file.
    pub closed spec fn path(&self) -> Seq<char> {
        self.path@
    }

    /// A writer for the database file at `path`.
    pub fn open(path: &str) -> (w: Writer)
        ensures
            w.path() == path@,
    {
        Writer { path: path.to_owned() }
    }
}

} // verus!
