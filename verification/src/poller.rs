//! Decision logic of the concurrent capture poller.
//!
//! One background thread multiplexes all per-CPU trace descriptors with a
//! bounded readiness poll so cancellation is noticed once per cycle.  The
//! polling and reading happen outside the library; these functions decide,
//! from plain values, what each cycle does: stop on cancellation, stop and
//! mark the capture partial on a poll failure, otherwise drain exactly the
//! descriptors that reported readiness.  The buffer append they drive is
//! verified here as well.

use vstd::prelude::*;

verus! {

/// Bounded poll cycle timeout in milliseconds: the worst-case latency
/// between cancellation and the poller noticing it.
pub const POLL_CYCLE_TIMEOUT_MS: i32 = 500;

/// Delay before the workload starts, letting queued pre-capture events be
/// drained and discarded, in milliseconds.
pub const PRIME_DELAY_MS: u64 = 5000;

/// Settle delay after the workload returns, letting in-flight kernel
/// events land, in milliseconds.
pub const SETTLE_DELAY_MS: u64 = 2000;

/// Readiness bit the poller watches on each descriptor.
pub const READ_READY: u16 = 0x0001;

/// What one readiness poll reported.
#[derive(Debug)]
pub enum PollOutcome {
    /// The poll call itself failed (other than by timing out).
    Failed,
    /// The poll returned; one readiness word per descriptor, in CPU order.
    Ready(Vec<u16>),
}

/// What the poller does next.
#[derive(Debug)]
pub enum PollerAction {
    /// Exit the loop; `partial` marks a capture cut short by a poll
    /// failure rather than by cancellation.
    Stop { partial: bool },
    /// Drain these descriptors, in order, then poll again.
    Drain { indices: Vec<usize> },
}

/// The indices whose readiness word has the read-ready bit, in ascending
/// order.
pub open spec fn spec_ready_indices(revents: Seq<u16>) -> Seq<usize>
    decreases revents.len(),
{
    if revents.len() == 0 {
        Seq::empty()
    } else {
        spec_ready_indices(revents.drop_last()) + if revents.last() & READ_READY != 0 {
            seq![(revents.len() - 1) as usize]
        } else {
            Seq::empty()
        }
    }
}

/// The descriptors to drain after one poll: exactly those that reported
/// read readiness, in ascending order.
pub fn ready_indices(revents: &Vec<u16>) -> (r: Vec<usize>)
    ensures
        r@ == spec_ready_indices(revents@),
{
    let mut out: Vec<usize> = Vec::new();
    let mut i: usize = 0;
    proof {
        assert(revents@.take(0) =~= Seq::<u16>::empty());
        assert(out@ =~= spec_ready_indices(revents@.take(0)));
    }
    while i < revents.len()
        invariant
            i <= revents@.len(),
            out@ == spec_ready_indices(revents@.take(i as int)),
        decreases revents@.len() - i,
    {
        proof {
            assert(revents@.take(i + 1).drop_last() =~= revents@.take(i as int));
            assert(revents@.take(i + 1).last() == revents@[i as int]);
        }
        if revents[i] & READ_READY != 0 {
            out.push(i);
            proof {
                assert(out@ =~= spec_ready_indices(revents@.take(i + 1)));
            }
        } else {
            proof {
                assert(out@ =~= spec_ready_indices(revents@.take(i + 1)));
            }
        }
        i = i + 1;
    }
    proof {
        assert(revents@.take(revents@.len() as int) =~= revents@);
    }
    out
}

/// Decide one poller cycle.  The cancellation flag is checked first, so
/// once it is set the poller stops without another drain — its worst-case
/// stop latency is the one poll cycle already in flight.  A poll failure
/// ends the capture as partial, never as an error.  Otherwise exactly the
/// ready descriptors are drained.
pub fn poller_cycle(cancelled: bool, poll: &PollOutcome) -> (a: PollerAction)
    ensures
        cancelled ==> (a matches PollerAction::Stop { partial } && partial == false),
        !cancelled ==> match *poll {
            PollOutcome::Failed => a matches PollerAction::Stop { partial } && partial == true,
            PollOutcome::Ready(revs) => a matches PollerAction::Drain { indices } && indices@
                == spec_ready_indices(revs@),
        },
{
    if cancelled {
        return PollerAction::Stop { partial: false };
    }
    match poll {
        PollOutcome::Failed => PollerAction::Stop { partial: true },
        PollOutcome::Ready(revents) => PollerAction::Drain { indices: ready_indices(revents) },
    }
}

/// One empty capture buffer per trace file.
pub fn new_capture_buffers(n: usize) -> (r: Vec<Vec<u8>>)
    ensures
        r@.len() == n,
        forall|i: int| 0 <= i < n ==> (#[trigger] r@[i])@.len() == 0,
{
    let mut out: Vec<Vec<u8>> = Vec::new();
    let mut i: usize = 0;
    while i < n
        invariant
            i <= n,
            out@.len() == i,
            forall|j: int| 0 <= j < i ==> (#[trigger] out@[j])@.len() == 0,
        decreases n - i,
    {
        out.push(Vec::new());
        i = i + 1;
    }
    out
}

/// Append one drained chunk to its CPU's buffer, leaving every other
/// buffer untouched: within one per-CPU buffer, append order is kernel
/// emission order.
pub fn append_chunk(buffers: &mut Vec<Vec<u8>>, index: usize, chunk: &Vec<u8>)
    requires
        index < old(buffers)@.len(),
    ensures
        final(buffers)@.len() == old(buffers)@.len(),
        (final(buffers)@[index as int])@ == (old(buffers)@[index as int])@ + chunk@,
        forall|j: int|
            0 <= j < old(buffers)@.len() && j != index ==> final(buffers)@[j] == old(buffers)@[j],
{
    let mut grown = buffers.remove(index);
    grown.extend_from_slice(chunk.as_slice());
    buffers.insert(index, grown);
    proof {
        assert(forall|j: int|
            0 <= j < old(buffers)@.len() && j != index ==> final(buffers)@[j] == old(
                buffers,
            )@[j]);
    }
}

} // verus!
