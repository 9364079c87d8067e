//! Per-syscall latency/byte accumulator reported by the benchmark side.

use vstd::prelude::*;

verus! {

/// Sum of a sequence of `u64` latencies, as an unbounded integer.
pub open spec fn sum_latency(s: Seq<u64>) -> int
    decreases s.len(),
{
    if s.len() == 0 {
        0
    } else {
        sum_latency(s.drop_last()) + s.last()
    }
}

/// Sum of a sequence of `usize` byte counts, as an unbounded integer.
pub open spec fn sum_bytes(s: Seq<usize>) -> int
    decreases s.len(),
{
    if s.len() == 0 {
        0
    } else {
        sum_bytes(s.drop_last()) + s.last()
    }
}

/// Accumulates one latency sample (in nanoseconds) and one byte count per
/// recorded operation.
pub struct Stats {
    latency: Vec<u64>,
    bytes: Vec<usize>,
}

impl Stats {
    /// One latency entry per byte entry.
    pub closed spec fn wf(&self) -> bool {
        self.latency@.len() == self.bytes@.len()
    }

    pub closed spec fn latencies(&self) -> Seq<u64> {
        self.latency@
    }

    pub closed spec fn byte_counts(&self) -> Seq<usize> {
        self.bytes@
    }

    pub fn new() -> (s: Stats)
        ensures
            s.wf(),
            s.latencies() == Seq::<u64>::empty(),
            s.byte_counts() == Seq::<usize>::empty(),
    {
        Stats { latency: Vec::new(), bytes: Vec::new() }
    }

    /// Record one operation: its latency in nanoseconds and the bytes it moved.
    pub fn record(&mut self, latency_ns: u64, bytes: usize)
        ensures
            old(self).wf() ==> final(self).wf(),
            final(self).latencies() == old(self).latencies().push(latency_ns),
            final(self).byte_counts() == old(self).byte_counts().push(bytes),
    {
        self.latency.push(latency_ns);
        self.bytes.push(bytes);
    }

    /// Total latency over all recorded operations, in nanoseconds,
    /// saturating at `u64::MAX`.
    pub fn total_latency(&self) -> (r: u64)
        ensures
            r == if sum_latency(self.latencies()) <= u64::MAX {
                sum_latency(self.latencies())
            } else {
                u64::MAX as int
            },
    {
        let mut total: u64 = 0;
        let mut i: usize = 0;
        while i < self.latency.len()
            invariant
                i <= self.latency@.len(),
                total == if sum_latency(self.latency@.take(i as int)) <= u64::MAX {
                    sum_latency(self.latency@.take(i as int))
                } else {
                    u64::MAX as int
                },
            decreases self.latency@.len() - i,
        {
            proof {
                assert(self.latency@.take(i + 1).drop_last() =~= self.latency@.take(i as int));
                assert(self.latency@.take(i + 1).last() == self.latency@[i as int]);
            }
            total = total.saturating_add(self.latency[i]);
            i = i + 1;
        }
        proof {
            assert(self.latency@.take(self.latency@.len() as int) =~= self.latency@);
        }
        total
    }

    /// Total bytes over all recorded operations, saturating at `usize::MAX`.
    pub fn total_bytes(&self) -> (r: usize)
        ensures
            r == if sum_bytes(self.byte_counts()) <= usize::MAX {
                sum_bytes(self.byte_counts())
            } else {
                usize::MAX as int
            },
    {
        let mut total: usize = 0;
        let mut i: usize = 0;
        while i < self.bytes.len()
            invariant
                i <= self.bytes@.len(),
                total == if sum_bytes(self.bytes@.take(i as int)) <= usize::MAX {
                    sum_bytes(self.bytes@.take(i as int))
                } else {
                    usize::MAX as int
                },
            decreases self.bytes@.len() - i,
        {
            proof {
                assert(self.bytes@.take(i + 1).drop_last() =~= self.bytes@.take(i as int));
                assert(self.bytes@.take(i + 1).last() == self.bytes@[i as int]);
            }
            total = total.saturating_add(self.bytes[i]);
            i = i + 1;
        }
        proof {
            assert(self.bytes@.take(self.bytes@.len() as int) =~= self.bytes@);
        }
        total
    }

    /// The recorded latency samples, in nanoseconds, in recording order.
    pub fn latency_samples(&self) -> (r: Vec<u64>)
        ensures
            r@ == self.latencies(),
    {
        self.latency.clone()
    }

    /// The recorded byte counts, in recording order.
    pub fn byte_samples(&self) -> (r: Vec<usize>)
        ensures
            r@ == self.byte_counts(),
    {
        self.bytes.clone()
    }

    /// Number of operations recorded.
    pub fn num_ops(&self) -> (r: usize)
        ensures
            r == self.byte_counts().len(),
    {
        self.bytes.len()
    }

    /// A duplicate holding the same samples.
    pub fn duplicate(&self) -> (r: Stats)
        ensures
            r.latencies() == self.latencies(),
            r.byte_counts() == self.byte_counts(),
    {
        Stats { latency: self.latency.clone(), bytes: self.bytes.clone() }
    }

    /// A new accumulator holding this one's samples followed by `other`'s.
    pub fn merged(&self, other: &Stats) -> (r: Stats)
        ensures
            self.wf() && other.wf() ==> r.wf(),
            r.latencies() == self.latencies() + other.latencies(),
            r.byte_counts() == self.byte_counts() + other.byte_counts(),
    {
        let mut latency = self.latency.clone();
        let mut bytes = self.bytes.clone();
        latency.extend_from_slice(other.latency.as_slice());
        bytes.extend_from_slice(other.bytes.as_slice());
        Stats { latency, bytes }
    }
}

} // verus!
