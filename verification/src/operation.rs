//! Per-syscall accumulators, one per operation kind the benchmarks time.
//!
//! The syscalls themselves (open, close, fsync, sync, read, write, unlink,
//! rename, readdir) run outside the library; each accumulator is handed
//! the measured latency and byte count of one call and keeps the running
//! statistics.

use vstd::prelude::*;

use crate::statistics::Stats;

verus! {

/// A timed operation kind whose statistics can be read out.
pub trait Operation {
    /// A copy of the statistics accumulated so far.
    fn get_stats(&self) -> Stats;
}

/// Accumulator for file-open calls.
pub struct Open {
    pub stats: Stats,
}

impl Open {
    pub fn new() -> (r: Open)
        ensures
            r.stats.wf(),
            r.stats.latencies() == Seq::<u64>::empty(),
            r.stats.byte_counts() == Seq::<usize>::empty(),
    {
        Open { stats: Stats::new() }
    }

    /// Record one timed call.
    pub fn record(&mut self, latency_ns: u64, bytes: usize)
        ensures
            final(self).stats.latencies() == old(self).stats.latencies().push(latency_ns),
            final(self).stats.byte_counts() == old(self).stats.byte_counts().push(bytes),
    {
        self.stats.record(latency_ns, bytes);
    }
}

impl Operation for Open {
    fn get_stats(&self) -> (r: Stats)
        ensures
            r.latencies() == self.stats.latencies(),
            r.byte_counts() == self.stats.byte_counts(),
    {
        self.stats.duplicate()
    }
}

/// Accumulator for file-close calls.
pub struct Close {
    pub stats: Stats,
}

impl Close {
    pub fn new() -> (r: Close)
        ensures
            r.stats.wf(),
            r.stats.latencies() == Seq::<u64>::empty(),
            r.stats.byte_counts() == Seq::<usize>::empty(),
    {
        Close { stats: Stats::new() }
    }

    /// Record one timed call.
    pub fn record(&mut self, latency_ns: u64, bytes: usize)
        ensures
            final(self).stats.latencies() == old(self).stats.latencies().push(latency_ns),
            final(self).stats.byte_counts() == old(self).stats.byte_counts().push(bytes),
    {
        self.stats.record(latency_ns, bytes);
    }
}

impl Operation for Close {
    fn get_stats(&self) -> (r: Stats)
        ensures
            r.latencies() == self.stats.latencies(),
            r.byte_counts() == self.stats.byte_counts(),
    {
        self.stats.duplicate()
    }
}

/// Accumulator for fsync calls.
pub struct Fsync {
    pub stats: Stats,
}

impl Fsync {
    pub fn new() -> (r: Fsync)
        ensures
            r.stats.wf(),
            r.stats.latencies() == Seq::<u64>::empty(),
            r.stats.byte_counts() == Seq::<usize>::empty(),
    {
        Fsync { stats: Stats::new() }
    }

    /// Record one timed call.
    pub fn record(&mut self, latency_ns: u64, bytes: usize)
        ensures
            final(self).stats.latencies() == old(self).stats.latencies().push(latency_ns),
            final(self).stats.byte_counts() == old(self).stats.byte_counts().push(bytes),
    {
        self.stats.record(latency_ns, bytes);
    }
}

impl Operation for Fsync {
    fn get_stats(&self) -> (r: Stats)
        ensures
            r.latencies() == self.stats.latencies(),
            r.byte_counts() == self.stats.byte_counts(),
    {
        self.stats.duplicate()
    }
}

/// Accumulator for whole-filesystem sync calls.
pub struct Sync {
    pub stats: Stats,
}

impl Sync {
    pub fn new() -> (r: Sync)
        ensures
            r.stats.wf(),
            r.stats.latencies() == Seq::<u64>::empty(),
            r.stats.byte_counts() == Seq::<usize>::empty(),
    {
        Sync { stats: Stats::new() }
    }

    /// Record one timed call.
    pub fn record(&mut self, latency_ns: u64, bytes: usize)
        ensures
            final(self).stats.latencies() == old(self).stats.latencies().push(latency_ns),
            final(self).stats.byte_counts() == old(self).stats.byte_counts().push(bytes),
    {
        self.stats.record(latency_ns, bytes);
    }
}

impl Operation for Sync {
    fn get_stats(&self) -> (r: Stats)
        ensures
            r.latencies() == self.stats.latencies(),
            r.byte_counts() == self.stats.byte_counts(),
    {
        self.stats.duplicate()
    }
}

/// Accumulator for read calls.
pub struct Read {
    pub stats: Stats,
}

impl Read {
    pub fn new() -> (r: Read)
        ensures
            r.stats.wf(),
            r.stats.latencies() == Seq::<u64>::empty(),
            r.stats.byte_counts() == Seq::<usize>::empty(),
    {
        Read { stats: Stats::new() }
    }

    /// Record one timed call and the bytes it read.
    pub fn record(&mut self, latency_ns: u64, bytes: usize)
        ensures
            final(self).stats.latencies() == old(self).stats.latencies().push(latency_ns),
            final(self).stats.byte_counts() == old(self).stats.byte_counts().push(bytes),
    {
        self.stats.record(latency_ns, bytes);
    }
}

impl Operation for Read {
    fn get_stats(&self) -> (r: Stats)
        ensures
            r.latencies() == self.stats.latencies(),
            r.byte_counts() == self.stats.byte_counts(),
    {
        self.stats.duplicate()
    }
}

/// Accumulator for write calls.
pub struct Write {
    pub stats: Stats,
}

impl Write {
    pub fn new() -> (r: Write)
        ensures
            r.stats.wf(),
            r.stats.latencies() == Seq::<u64>::empty(),
            r.stats.byte_counts() == Seq::<usize>::empty(),
    {
        Write { stats: Stats::new() }
    }

    /// Record one timed call and the bytes it wrote.
    pub fn record(&mut self, latency_ns: u64, bytes: usize)
        ensures
            final(self).stats.latencies() == old(self).stats.latencies().push(latency_ns),
            final(self).stats.byte_counts() == old(self).stats.byte_counts().push(bytes),
    {
        self.stats.record(latency_ns, bytes);
    }
}

impl Operation for Write {
    fn get_stats(&self) -> (r: Stats)
        ensures
            r.latencies() == self.stats.latencies(),
            r.byte_counts() == self.stats.byte_counts(),
    {
        self.stats.duplicate()
    }
}

/// Accumulator for unlink calls.
pub struct Unlink {
    pub stats: Stats,
}

impl Unlink {
    pub fn new() -> (r: Unlink)
        ensures
            r.stats.wf(),
            r.stats.latencies() == Seq::<u64>::empty(),
            r.stats.byte_counts() == Seq::<usize>::empty(),
    {
        Unlink { stats: Stats::new() }
    }

    /// Record one timed call.
    pub fn record(&mut self, latency_ns: u64, bytes: usize)
        ensures
            final(self).stats.latencies() == old(self).stats.latencies().push(latency_ns),
            final(self).stats.byte_counts() == old(self).stats.byte_counts().push(bytes),
    {
        self.stats.record(latency_ns, bytes);
    }
}

impl Operation for Unlink {
    fn get_stats(&self) -> (r: Stats)
        ensures
            r.latencies() == self.stats.latencies(),
            r.byte_counts() == self.stats.byte_counts(),
    {
        self.stats.duplicate()
    }
}

/// Accumulator for rename calls.
pub struct Rename {
    pub stats: Stats,
}

impl Rename {
    pub fn new() -> (r: Rename)
        ensures
            r.stats.wf(),
            r.stats.latencies() == Seq::<u64>::empty(),
            r.stats.byte_counts() == Seq::<usize>::empty(),
    {
        Rename { stats: Stats::new() }
    }

    /// Record one timed call.
    pub fn record(&mut self, latency_ns: u64, bytes: usize)
        ensures
            final(self).stats.latencies() == old(self).stats.latencies().push(latency_ns),
            final(self).stats.byte_counts() == old(self).stats.byte_counts().push(bytes),
    {
        self.stats.record(latency_ns, bytes);
    }
}

impl Operation for Rename {
    fn get_stats(&self) -> (r: Stats)
        ensures
            r.latencies() == self.stats.latencies(),
            r.byte_counts() == self.stats.byte_counts(),
    {
        self.stats.duplicate()
    }
}

/// Accumulator for directory-listing calls.
pub struct ReadDir {
    pub stats: Stats,
}

impl ReadDir {
    pub fn new() -> (r: ReadDir)
        ensures
            r.stats.wf(),
            r.stats.latencies() == Seq::<u64>::empty(),
            r.stats.byte_counts() == Seq::<usize>::empty(),
    {
        ReadDir { stats: Stats::new() }
    }

    /// Record one timed call.
    pub fn record(&mut self, latency_ns: u64, bytes: usize)
        ensures
            final(self).stats.latencies() == old(self).stats.latencies().push(latency_ns),
            final(self).stats.byte_counts() == old(self).stats.byte_counts().push(bytes),
    {
        self.stats.record(latency_ns, bytes);
    }
}

impl Operation for ReadDir {
    fn get_stats(&self) -> (r: Stats)
        ensures
            r.latencies() == self.stats.latencies(),
            r.byte_counts() == self.stats.byte_counts(),
    {
        self.stats.duplicate()
    }
}

} // verus!
