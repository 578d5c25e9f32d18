//! Network capture: the protocol and direction of traffic, the events the
//! network stack reports, and the per-flow aggregation of those events.

pub mod etw;
pub mod flow;
pub mod pipeline;
pub mod process;

use vstd::prelude::*;

use crate::net::IpAddr;

verus! {

/// Transport protocol of a flow.
#[derive(Clone, Copy, Debug, PartialEq, Eq, Hash, Structural)]
pub enum Proto {
    Tcp,
    Udp,
}

impl Proto {
    /// The lowercase protocol name, as stored in the database.
    pub fn as_str(self) -> (s: &'static str)
        ensures
            s@ == (match self {
                Proto::Tcp => "tcp"@,
                Proto::Udp => "udp"@,
            }),
    {
        match self {
            Proto::Tcp => "tcp",
            Proto::Udp => "udp",
        }
    }
}

/// Direction of bytes in a single event.
#[derive(Clone, Copy, Debug, PartialEq, Eq, Hash, Structural)]
pub enum Direction {
    /// Local -> remote (upload).
    Out,
    /// Remote -> local (download).
    In,
}

impl Direction {
    /// `"out"` or `"in"`.
    pub fn as_str(self) -> (s: &'static str)
        ensures
            s@ == (match self {
                Direction::Out => "out"@,
                Direction::In => "in"@,
            }),
    {
        match self {
            Direction::Out => "out",
            Direction::In => "in",
        }
    }
}

/// A single byte-delta event from the network stack.
#[derive(Clone, Copy, Debug)]
pub struct ConnEvent {
    pub ts_ms: i64,
    pub pid: u32,
    pub proto: Proto,
    pub remote_ip: IpAddr,
    pub remote_port: u16,
    pub bytes: u64,
    pub direction: Direction,
}

/// The wall clock in milliseconds since the Unix epoch.
pub fn now_ms() -> i64 {
    crate::clock::unix_millis()
}

} // verus!
