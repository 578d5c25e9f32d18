//! Command-line arguments and the run mode they select.

use vstd::prelude::*;

verus! {

/// A query against the database.
#[derive(Clone, Copy, Debug, PartialEq, Eq, Structural)]
pub enum QueryCmd {
    /// Top processes by bytes over the last `last` seconds.
    TopProcesses { last: i64, limit: usize },
    /// Top domains by bytes over the last `last` seconds.
    TopDomains { last: i64, limit: usize },
    /// Total bytes over the last `last` seconds.
    Totals { last: i64 },
    /// Row count and database size.
    Stats,
}

/// Parsed command-line arguments.
#[derive(Debug)]
pub struct Args {
    /// A database query to run instead of monitoring.
    pub command: Option<QueryCmd>,
    /// Run without GUI/tray (capture + DB only, useful for servers and CI).
    pub headless: bool,
    /// Synthesize 1000 fake rows, write them, print top domains, exit.
    pub demo: bool,
    /// Path to config file.
    pub config: Option<String>,
    /// Automatically shut down headless mode after N seconds.
    pub shutdown_after: Option<u64>,
}

/// What a run does.
#[derive(Clone, Copy, Debug, PartialEq, Eq, Structural)]
pub enum RunMode {
    Query(QueryCmd),
    Demo,
    Headless,
    /// The tray GUI, which is not built yet.
    Gui,
}

/// The mode `args` select: a query first, then the demo, then headless
/// capture, else the GUI.
pub open spec fn mode_of(args: Args) -> RunMode {
    match args.command {
        Some(cmd) => RunMode::Query(cmd),
        None => if args.demo {
            RunMode::Demo
        } else if args.headless {
            RunMode::Headless
        } else {
            RunMode::Gui
        },
    }
}

/// Chooses the run mode.
pub fn run_mode(args: &Args) -> (m: RunMode)
    ensures
        m == mode_of(*args),
{
    match args.command {
        Some(cmd) => RunMode::Query(cmd),
        None => if args.demo {
            RunMode::Demo
        } else if args.headless {
            RunMode::Headless
        } else {
            RunMode::Gui
        },
    }
}

/// The start of a query window of `last_secs` seconds ending at `now_ms`,
/// or `None` when it passes the range of 64-bit milliseconds.
pub fn window_start(now_ms: i64, last_secs: i64) -> (r: Option<i64>)
    ensures
        match r {
            Some(s) => s == now_ms - last_secs * 1000,
            None => !(i64::MIN <= last_secs * 1000 <= i64::MAX && i64::MIN <= now_ms - last_secs * 1000
                <= i64::MAX),
        },
{
    match last_secs.checked_mul(1000) {
        Some(span) => now_ms.checked_sub(span),
        None => None,
    }
}

} // verus!
