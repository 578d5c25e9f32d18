//! Process id -> process name cache, and the decisions of taking a
//! snapshot of the system process table.
//!
//! Reading the process table is the operating system's work; this module
//! holds what is done with what it returns.

use std::collections::HashMap;

use vstd::prelude::*;

verus! {

broadcast use vstd::std_specs::hash::group_hash_axioms;

/// One row in the process snapshot.
#[derive(Debug)]
pub struct ProcInfo {
    pub pid: u32,
    pub name: String,
}

/// Why a snapshot of the process table failed.
#[derive(Debug)]
pub enum SnapshotError {
    /// The operating system refused to enumerate processes; its message.
    EnumFailed(String),
    /// More than a million process ids; the snapshot is not retried.
    TooManyPids,
}

/// The map from process ids to names that a snapshot describes; a later
/// row of the same id replaces an earlier one.
pub open spec fn snapshot_names(infos: Seq<ProcInfo>) -> Map<u32, Seq<char>>
    decreases infos.len(),
{
    if infos.len() == 0 {
        Map::empty()
    } else {
        snapshot_names(infos.drop_last()).insert(infos.last().pid, infos.last().name@)
    }
}

/// A snapshot maps each process id it holds to the name of the last row
/// with that id, and holds no other id.
pub proof fn law_snapshot_last_row_wins(infos: Seq<ProcInfo>, pid: u32)
    ensures
        snapshot_names(infos).contains_key(pid) <==> exists|i: int| 0 <= i < infos.len() && infos[i].pid == pid,
        snapshot_names(infos).contains_key(pid) ==> exists|i: int|
            0 <= i < infos.len() && infos[i].pid == pid && snapshot_names(infos)[pid] == infos[i].name@
                && forall|j: int| i < j < infos.len() ==> infos[j].pid != pid,
    decreases infos.len(),
{
    if infos.len() > 0 {
        let init = infos.drop_last();
        law_snapshot_last_row_wins(init, pid);
        let last = infos.len() - 1;
        if infos[last].pid == pid {
            assert(infos.last() == infos[last]);
        } else {
            if snapshot_names(init).contains_key(pid) {
                let i = choose|i: int|
                    0 <= i < init.len() && init[i].pid == pid && snapshot_names(init)[pid] == init[i].name@
                        && forall|j: int| i < j < init.len() ==> init[j].pid != pid;
                assert(infos[i] == init[i]);
                assert forall|j: int| i < j < infos.len() implies infos[j].pid != pid by {
                    if j < last {
                        assert(infos[j] == init[j]);
                    }
                }
            }
            if exists|i: int| 0 <= i < infos.len() && infos[i].pid == pid {
                let i = choose|i: int| 0 <= i < infos.len() && infos[i].pid == pid;
                assert(i < last);
                assert(init[i] == infos[i]);
            }
        }
    }
}

/// Maintains a (pid -> name) map, replaced wholesale by each refresh.
pub struct ProcessCache {
    by_pid: HashMap<u32, String>,
}

impl ProcessCache {
    /// The known process names.
    pub closed spec fn names(&self) -> Map<u32, Seq<char>> {
        self.by_pid@.map_values(|s: String| s@)
    }

    /// An empty cache.
    pub fn new() -> (c: Self)
        ensures
            c.names() == Map::<u32, Seq<char>>::empty(),
    {
        let c = ProcessCache { by_pid: HashMap::new() };
        assert(c.names() =~= Map::<u32, Seq<char>>::empty());
        c
    }

    /// Replaces the known names with those of a fresh snapshot of the
    /// process table. A failed snapshot leaves the cache as it was and is
    /// handed back.
    pub fn refresh(&mut self, snapshot: Result<Vec<ProcInfo>, SnapshotError>) -> (r: Result<(), SnapshotError>)
        ensures
            match snapshot {
                Ok(infos) => r is Ok && final(self).names() == snapshot_names(infos@),
                Err(e) => r == Err::<(), SnapshotError>(e) && final(self).names() == old(self).names(),
            },
    {
        match snapshot {
            Ok(infos) => {
                let mut by_pid: HashMap<u32, String> = HashMap::new();
                let n = infos.len();
                let mut i: usize = 0;
                while i < n
                    invariant
                        n == infos@.len(),
                        0 <= i <= n,
                        by_pid@.map_values(|s: String| s@) == snapshot_names(infos@.take(i as int)),
                    decreases n - i,
                {
                    by_pid.insert(infos[i].pid, infos[i].name.clone());
                    proof {
                        let t = infos@.take(i as int + 1);
                        assert(t.drop_last() =~= infos@.take(i as int));
                        assert(by_pid@.map_values(|s: String| s@) =~= snapshot_names(t));
                    }
                    i = i + 1;
                }
                assert(infos@.take(n as int) =~= infos@);
                self.by_pid = by_pid;
                Ok(())
            },
            Err(e) => Err(e),
        }
    }

    /// Looks up a process name by id.
    pub fn name(&self, pid: u32) -> (r: Option<&str>)
        ensures
            match r {
                Some(s) => self.names().contains_key(pid) && self.names()[pid] == s@,
                None => !self.names().contains_key(pid),
            },
    {
        match self.by_pid.get(&pid) {
            Some(s) => Some(s.as_str()),
            None => None,
        }
    }

    /// A copy of the whole map.
    pub fn snapshot_map(&self) -> (m: HashMap<u32, String>)
        ensures
            m@.map_values(|s: String| s@) == self.names(),
    {
        self.by_pid.clone()
    }

    /// Number of known process ids.
    pub fn len(&self) -> (n: usize)
        ensures
            self.names().dom().finite(),
            n == self.names().len(),
    {
        assert(self.names().dom() =~= self.by_pid@.dom());
        self.by_pid.len()
    }

    /// Whether no process is known.
    pub fn is_empty(&self) -> (b: bool)
        ensures
            self.names().dom().finite(),
            b == (self.names() == Map::<u32, Seq<char>>::empty()),
            b == (self.names().len() == 0),
    {
        assert(self.names().dom() =~= self.by_pid@.dom());
        let b = self.by_pid.is_empty();
        proof {
            if self.by_pid@.is_empty() {
                assert(self.names() =~= Map::<u32, Seq<char>>::empty());
            } else {
                let k = choose|k: u32| self.by_pid@.contains_key(k);
                assert(self.names().contains_key(k));
            }
        }
        b
    }
}

impl Default for ProcessCache {
    /// An empty cache.
    fn default() -> (c: Self)
        ensures
            c.names() == Map::<u32, Seq<char>>::empty(),
    {
        Self::new()
    }
}

/// The number of process ids requested from the first enumeration.
pub const PID_BUFFER_CAPACITY: usize = 16_384;

/// The size in bytes of the first enumeration buffer (four bytes per id).
pub const INITIAL_PID_BUFFER_BYTES: usize = 65_536;

/// The largest enumeration buffer, in bytes, that is tried.
pub const MAX_PID_BUFFER_BYTES: usize = 4_194_304;

/// What to do after one enumeration of process ids into a buffer of
/// `buf_bytes` bytes.
#[derive(Clone, Copy, Debug, PartialEq, Eq, Structural)]
pub enum PidBufferStep {
    /// The buffer was large enough: keep its first `n` ids.
    Done(usize),
    /// The buffer was full: retry with a buffer of this many bytes.
    Retry(usize),
    /// The buffer would pass the largest size: give up.
    TooMany,
}

/// The decision after an enumeration into a buffer of `buf_bytes` bytes
/// that wrote `bytes_written` bytes.
pub open spec fn pid_buffer_step(buf_bytes: usize, bytes_written: u32) -> PidBufferStep {
    let capacity = buf_bytes / 4;
    let written = bytes_written / 4;
    let doubled = if buf_bytes * 2 <= usize::MAX { buf_bytes * 2 } else { usize::MAX as int };
    if written < capacity {
        PidBufferStep::Done(written as usize)
    } else if doubled > MAX_PID_BUFFER_BYTES {
        PidBufferStep::TooMany
    } else {
        PidBufferStep::Retry(doubled as usize)
    }
}

/// The decision after an enumeration into a buffer of `buf_bytes` bytes
/// wrote `bytes_written` bytes: done when fewer ids than the buffer holds
/// were written; otherwise double the buffer (saturating), unless that
/// passes 4 MiB.
pub fn next_pid_buffer(buf_bytes: usize, bytes_written: u32) -> (step: PidBufferStep)
    ensures
        step == pid_buffer_step(buf_bytes, bytes_written),
{
    let capacity = buf_bytes / 4;
    let written = (bytes_written / 4) as usize;
    if written < capacity {
        return PidBufferStep::Done(written);
    }
    let doubled = if buf_bytes > usize::MAX / 2 { usize::MAX } else { buf_bytes * 2 };
    if doubled > MAX_PID_BUFFER_BYTES {
        PidBufferStep::TooMany
    } else {
        PidBufferStep::Retry(doubled)
    }
}

/// The buffer size after `k` retries from the first buffer.
pub open spec fn buffer_after_retries(k: nat) -> int
    decreases k,
{
    if k == 0 {
        INITIAL_PID_BUFFER_BYTES as int
    } else {
        2 * buffer_after_retries((k - 1) as nat)
    }
}

/// Starting from the first buffer, each retry doubles the buffer, so there
/// are at most six retries: a seventh would pass 4 MiB.
pub proof fn law_pid_buffer_retries_bounded(k: nat, bytes_written: u32)
    requires
        buffer_after_retries(k) <= usize::MAX,
    ensures
        pid_buffer_step(buffer_after_retries(k) as usize, bytes_written) matches PidBufferStep::Retry(n) ==> n
            == buffer_after_retries(k + 1) && k + 1 <= 6,
    decreases k,
{
    reveal_with_fuel(buffer_after_retries, 8);
    if k > 6 {
        lemma_buffer_growth(k);
    }
}

proof fn lemma_buffer_growth(k: nat)
    requires
        k >= 6,
    ensures
        buffer_after_retries(k) >= 4_194_304,
    decreases k,
{
    reveal_with_fuel(buffer_after_retries, 8);
    if k > 6 {
        lemma_buffer_growth((k - 1) as nat);
    }
}

/// Whether the name of process `pid` is looked up: every process but the
/// System Idle Process (id 0).
pub fn wants_name(pid: u32) -> (b: bool)
    ensures
        b == (pid != 0),
{
    pid != 0
}

/// The rows of a snapshot: each id but 0 whose name could be read, in
/// order, where `names[i]` is the name read for `pids[i]`.
pub open spec fn named_rows(pids: Seq<u32>, names: Seq<Option<String>>) -> Seq<(u32, Seq<char>)>
    decreases pids.len(),
{
    if pids.len() == 0 || names.len() != pids.len() {
        Seq::empty()
    } else {
        let rest = named_rows(pids.drop_last(), names.drop_last());
        match names.last() {
            Some(n) => if pids.last() != 0 { rest.push((pids.last(), n@)) } else { rest },
            None => rest,
        }
    }
}

/// The view of snapshot rows as pairs.
pub open spec fn info_pairs(infos: Seq<ProcInfo>) -> Seq<(u32, Seq<char>)> {
    infos.map_values(|p: ProcInfo| (p.pid, p.name@))
}

/// Builds the snapshot rows from the enumerated ids and the names read for
/// them, skipping id 0 and ids whose name could not be read.
pub fn proc_infos_from(pids: &Vec<u32>, names: &Vec<Option<String>>) -> (infos: Vec<ProcInfo>)
    requires
        names@.len() == pids@.len(),
    ensures
        info_pairs(infos@) == named_rows(pids@, names@),
{
    let n = pids.len();
    let mut out: Vec<ProcInfo> = Vec::new();
    let mut i: usize = 0;
    while i < n
        invariant
            n == pids@.len(),
            n == names@.len(),
            0 <= i <= n,
            info_pairs(out@) == named_rows(pids@.take(i as int), names@.take(i as int)),
        decreases n - i,
    {
        let pid = pids[i];
        let ghost pre = out@;
        proof {
            let tp = pids@.take(i as int + 1);
            let tn = names@.take(i as int + 1);
            assert(tp.drop_last() =~= pids@.take(i as int));
            assert(tn.drop_last() =~= names@.take(i as int));
            assert(tn.last() == names@[i as int]);
            assert(tp.last() == pid);
        }
        if pid != 0 {
            match &names[i] {
                Some(name) => {
                    out.push(ProcInfo { pid, name: name.clone() });
                    assert(info_pairs(out@) =~= info_pairs(pre).push((pid, name@)));
                },
                None => {},
            }
        }
        i = i + 1;
    }
    assert(pids@.take(n as int) =~= pids@);
    assert(names@.take(n as int) =~= names@);
    out
}

} // verus!
