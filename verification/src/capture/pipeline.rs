//! The decisions of the aggregation thread of headless capture. The thread
//! waits for events with a timeout; what it received decides what it does
//! next, and the refresh of process names and the flushing that follow.

use vstd::prelude::*;

use crate::capture::flow::{
    bucket_start, bucket_width, drain_ok, key_of, observe_map, rows_describe, stats_of, event_fits, FlowAggregator, FlowKey,
    FlowStats,
};
use crate::capture::process::{ProcInfo, ProcessCache, SnapshotError, snapshot_names};
use crate::capture::ConnEvent;
use crate::dns::ResolveResult;
use crate::net::IpAddr;
use crate::store::Row;

verus! {

/// What a wait for the next event gave.
#[derive(Debug)]
pub enum Received {
    /// A traffic event.
    Event(ConnEvent),
    /// No event within the wait.
    Timeout,
    /// The capture side has gone: no more events will come.
    Disconnected,
}

/// What the thread does after handling what it received.
#[derive(Clone, Copy, Debug, PartialEq, Eq, Structural)]
pub enum Next {
    /// Ask the resolver for the name of this address.
    Resolve(IpAddr),
    /// Refresh process names, then flush if a flush is due.
    RefreshThenFlush,
    /// Refresh process names, flush everything and stop.
    RefreshThenFinalFlush,
}

/// Handles what a wait gave: an event is observed and its address is to be
/// resolved; a timeout or the end of events lead to a refresh and a flush.
pub fn on_received(agg: &mut FlowAggregator, r: Received) -> (next: Next)
    requires
        old(agg).wf(),
        match r {
            Received::Event(ev) => event_fits(stats_of(old(agg).flows(), key_of(ev)), ev),
            _ => true,
        },
    ensures
        final(agg).wf(),
        final(agg).names() == old(agg).names(),
        final(agg).domains() == old(agg).domains(),
        final(agg).interval_ms() == old(agg).interval_ms(),
        match r {
            Received::Event(ev) => next == Next::Resolve(ev.remote_ip) && final(agg).flows() == observe_map(
                old(agg).flows(),
                ev,
            ),
            Received::Timeout => next == Next::RefreshThenFlush && final(agg).entries() == old(agg).entries(),
            Received::Disconnected => next == Next::RefreshThenFinalFlush && final(agg).entries()
                == old(agg).entries(),
        },
{
    match r {
        Received::Event(ev) => {
            let ip = ev.remote_ip;
            agg.observe(ev);
            Next::Resolve(ip)
        },
        Received::Timeout => Next::RefreshThenFlush,
        Received::Disconnected => Next::RefreshThenFinalFlush,
    }
}

/// Records a resolver answer: a found name becomes the domain of its
/// address; an answer without a name changes nothing.
pub fn on_resolved(agg: &mut FlowAggregator, result: ResolveResult)
    requires
        old(agg).wf(),
    ensures
        final(agg).wf(),
        final(agg).entries() == old(agg).entries(),
        final(agg).names() == old(agg).names(),
        final(agg).interval_ms() == old(agg).interval_ms(),
        match result.name {
            Some(n) => final(agg).domains() == old(agg).domains().insert(result.ip, n@),
            None => final(agg).domains() == old(agg).domains(),
        },
{
    match result.name {
        Some(name) => agg.update_domain(result.ip, name),
        None => {},
    }
}

/// Refreshes the process cache from a new snapshot and, when the snapshot
/// succeeded, gives its names to the aggregator; then flushes: everything
/// when `final_flush`, otherwise only if a flush is due.
pub fn refresh_and_flush(
    agg: &mut FlowAggregator,
    cache: &mut ProcessCache,
    snapshot: Result<Vec<ProcInfo>, SnapshotError>,
    final_flush: bool,
) -> (rows: Vec<Row>)
    requires
        old(agg).wf(),
        drain_ok(old(agg).interval_ms()),
    ensures
        final(agg).wf(),
        final(agg).in_test_mode() == old(agg).in_test_mode(),
        !final_flush && old(agg).in_test_mode() ==> rows@.len() == 0 && final(agg).entries() == old(agg).entries(),
        final(agg).interval_ms() == old(agg).interval_ms(),
        final(agg).domains() == old(agg).domains(),
        match snapshot {
            Ok(infos) => {
                &&& final(cache).names() == snapshot_names(infos@)
                &&& final(agg).names() == old(agg).names().union_prefer_right(snapshot_names(infos@))
            },
            Err(_) => final(cache).names() == old(cache).names() && final(agg).names() == old(agg).names(),
        },
        final_flush ==> final(agg).entries() == Seq::<(FlowKey, FlowStats)>::empty(),
        (final_flush || rows@.len() > 0 || final(agg).entries() != old(agg).entries()) ==> exists|now: i64|
            rows_describe(
                rows@,
                old(agg).entries(),
                bucket_start(now as int, bucket_width(old(agg).interval_ms())),
                final(agg).names(),
                old(agg).domains(),
            ),
{
    let refreshed = cache.refresh(snapshot);
    if refreshed.is_ok() {
        agg.update_proc_names(cache.snapshot_map());
    }
    if final_flush {
        agg.flush_now()
    } else {
        agg.maybe_flush()
    }
}

} // verus!
