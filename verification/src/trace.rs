//! Immutable, decoded view over a completed capture: the raw per-CPU
//! buffers, the time-sorted decoded events, and the elapsed capture
//! duration, with the aggregate and correlated queries over them.

use vstd::prelude::*;
use vstd::seq_lib::*;

use crate::codec::Action;
use crate::codec::Event;
use crate::codec::EventModel;
use crate::codec::CATEGORY_READ;
use crate::codec::CATEGORY_WRITE;
use crate::codec::decode_buffer;
use crate::codec::models;
use crate::codec::spec_scan;

verus! {

broadcast use {
    vstd::std_specs::hash::group_hash_axioms,
    vstd::seq_lib::group_to_multiset_ensures,
    vstd::seq_lib::lemma_multiset_commutative,
};

/// Bytes per disk sector, the unit of the events' sector field.
pub const SECTOR_SIZE: usize = 512;

/// Non-decreasing timestamps.
pub open spec fn sorted_by_time(s: Seq<EventModel>) -> bool {
    forall|i: int, j: int| 0 <= i < j < s.len() ==> s[i].time <= s[j].time
}

/// The views of a vector of byte buffers.
pub open spec fn buf_views(s: Seq<Vec<u8>>) -> Seq<Seq<u8>> {
    s.map_values(|v: Vec<u8>| v@)
}

/// Total length of a group of buffers.
pub open spec fn sum_lens(bufs: Seq<Seq<u8>>) -> int
    decreases bufs.len(),
{
    if bufs.len() == 0 {
        0
    } else {
        sum_lens(bufs.drop_last()) + bufs.last().len()
    }
}

/// A total of lengths is never negative.
pub proof fn lemma_sum_lens_nonneg(bufs: Seq<Seq<u8>>)
    ensures
        sum_lens(bufs) >= 0,
    decreases bufs.len(),
{
    if bufs.len() > 0 {
        lemma_sum_lens_nonneg(bufs.drop_last());
    }
}

/// A prefix of the buffers never totals more than all of them.
pub proof fn lemma_sum_lens_take(bufs: Seq<Seq<u8>>, i: int)
    requires
        0 <= i <= bufs.len(),
    ensures
        sum_lens(bufs.take(i)) <= sum_lens(bufs),
    decreases bufs.len(),
{
    if i == bufs.len() {
        assert(bufs.take(i) =~= bufs);
    } else {
        assert(bufs.drop_last().take(i) =~= bufs.take(i));
        lemma_sum_lens_take(bufs.drop_last(), i);
    }
}

/// All events of a group of buffers, buffer by buffer in order, each
/// decoded up to its first fault.
pub open spec fn all_events(bufs: Seq<Seq<u8>>) -> Seq<EventModel>
    decreases bufs.len(),
{
    if bufs.len() == 0 {
        Seq::empty()
    } else {
        all_events(bufs.drop_last()) + spec_scan(bufs.last()).0
    }
}

/// Whether every buffer of the group decodes without a fault.
pub open spec fn all_complete(bufs: Seq<Seq<u8>>) -> bool {
    forall|i: int| 0 <= i < bufs.len() ==> (#[trigger] spec_scan(bufs[i])).1 is None
}

/// Sum of the `bytes` fields over completed events whose category has every
/// bit of `mask`.
pub open spec fn completed_bytes(events: Seq<EventModel>, mask: u16) -> int
    decreases events.len(),
{
    if events.len() == 0 {
        0
    } else {
        completed_bytes(events.drop_last(), mask) + {
            let e = events.last();
            if e.action == Action::Complete && e.category.spec_contains(mask) {
                e.bytes as int
            } else {
                0
            }
        }
    }
}

/// One pass over the events, front to back, carrying the map from sequence
/// number to the timestamp of its pending insertion: an Insert records its
/// timestamp, a Complete that finds a pending Insert removes it and adds
/// the elapsed time to the total, and everything else changes nothing.
pub open spec fn io_pass(events: Seq<EventModel>, pending: Map<u32, u64>, acc: int) -> int
    decreases events.len(),
{
    if events.len() == 0 {
        acc
    } else {
        let e = events.first();
        let rest = events.drop_first();
        if e.action == Action::Insert {
            io_pass(rest, pending.insert(e.sequence, e.time), acc)
        } else if e.action == Action::Complete {
            if pending.dom().contains(e.sequence) {
                io_pass(rest, pending.remove(e.sequence), acc + e.time - pending[e.sequence])
            } else {
                io_pass(rest, pending, acc)
            }
        } else {
            io_pass(rest, pending, acc)
        }
    }
}

/// Total time from queue insertion to completion, summed over matched
/// Insert/Complete pairs; unmatched events contribute nothing.
pub open spec fn spec_io_duration(events: Seq<EventModel>) -> int {
    io_pass(events, Map::empty(), 0)
}

/// The distinct sequence numbers observed, any action.
pub open spec fn request_ids(events: Seq<EventModel>) -> Set<u32>
    decreases events.len(),
{
    if events.len() == 0 {
        Set::empty()
    } else {
        request_ids(events.drop_last()).insert(events.last().sequence)
    }
}

/// Sort events in place into non-decreasing timestamp order, keeping
/// exactly the same events.
fn sort_events_by_time(v: &mut Vec<Event>)
    ensures
        models(final(v)@).to_multiset() == models(old(v)@).to_multiset(),
        sorted_by_time(models(final(v)@)),
{
    if v.len() == 0 {
        return;
    }
    let mut i: usize = 1;
    while i < v.len()
        invariant
            1 <= i <= v@.len(),
            models(v@).to_multiset() == models(old(v)@).to_multiset(),
            sorted_by_time(models(v@).take(i as int)),
        decreases v@.len() - i,
    {
        let ghost before = models(v@);
        let x = v.remove(i);
        proof {
            assert(models(v@) =~= before.remove(i as int));
            assert(before[i as int] == x@);
            assert(before.contains(x@));
        }
        let mut pos: usize = 0;
        while pos < i && v[pos].time <= x.time
            invariant
                pos <= i <= v@.len(),
                models(v@) == before.remove(i as int),
                forall|j: int| 0 <= j < pos ==> models(v@)[j].time <= x@.time,
            decreases i - pos,
        {
            pos = pos + 1;
        }
        let ghost after_rm = models(v@);
        v.insert(pos, x);
        proof {
            assert(models(v@) =~= after_rm.insert(pos as int, x@));
            assert(models(v@).to_multiset() =~= before.to_multiset());
            assert forall|a: int, b: int| 0 <= a < b < i + 1 implies models(v@)[a].time
                <= models(v@)[b].time by {
                let s = models(v@);
                assert(forall|k: int|
                    0 <= k < s.len() ==> s[k] == if k < pos {
                        after_rm[k]
                    } else if k == pos {
                        x@
                    } else {
                        after_rm[k - 1]
                    });
                assert(forall|j: int, k: int|
                    0 <= j < k < i ==> after_rm[j].time <= after_rm[k].time);
                assert(pos < i ==> after_rm[pos as int].time > x@.time);
            }
        }
        i = i + 1;
    }
    proof {
        assert(models(v@).take(v@.len() as int) =~= models(v@));
    }
}

/// Immutable decoded view over a completed capture.  Built once at capture
/// end; purely queryable afterwards.  Every query's contract equates its
/// result with a function of the stored state alone, so repeated calls on
/// one instance return identical results.
pub struct Trace {
    data: Vec<Vec<u8>>,
    events: Vec<Event>,
    elapsed_ns: u64,
    complete: bool,
}

impl Trace {
    /// The raw per-CPU buffers, in CPU order.
    pub closed spec fn buffers(&self) -> Seq<Seq<u8>> {
        buf_views(self.data@)
    }

    /// The decoded events, in timestamp order.
    pub closed spec fn event_models(&self) -> Seq<EventModel> {
        models(self.events@)
    }

    /// The elapsed capture duration in nanoseconds.
    pub closed spec fn elapsed(&self) -> u64 {
        self.elapsed_ns
    }

    /// Whether every buffer decoded without a fault.
    pub closed spec fn decode_ok(&self) -> bool {
        self.complete
    }

    /// The buffers fit one address space and the events are time-sorted.
    pub closed spec fn wf(&self) -> bool {
        &&& sum_lens(self.buffers()) <= usize::MAX
        &&& sorted_by_time(self.event_models())
    }

    /// Build the trace from the captured per-CPU buffers and the elapsed
    /// capture duration: decode every buffer (keeping what precedes a
    /// fault, and recording whether there was one), then sort all events
    /// by timestamp.  The raw buffers are kept as supplied.
    pub fn new(data: Vec<Vec<u8>>, elapsed_ns: u64) -> (t: Trace)
        requires
            sum_lens(buf_views(data@)) <= usize::MAX,
        ensures
            t.wf(),
            t.buffers() == buf_views(data@),
            t.elapsed() == elapsed_ns,
            t.event_models().to_multiset() == all_events(buf_views(data@)).to_multiset(),
            sorted_by_time(t.event_models()),
            t.decode_ok() == all_complete(buf_views(data@)),
    {
        let ghost bv = buf_views(data@);
        let mut events: Vec<Event> = Vec::new();
        let mut complete = true;
        let mut i: usize = 0;
        proof {
            assert(bv.take(0) =~= Seq::<Seq<u8>>::empty());
            assert(models(events@) =~= all_events(bv.take(0)));
        }
        while i < data.len()
            invariant
                i <= data@.len(),
                bv == buf_views(data@),
                models(events@) == all_events(bv.take(i as int)),
                complete == all_complete(bv.take(i as int)),
            decreases data@.len() - i,
        {
            let (mut evs, fault) = decode_buffer(&data[i]);
            proof {
                assert(bv.take(i + 1).drop_last() =~= bv.take(i as int));
                assert(bv.take(i + 1).last() == data@[i as int]@);
                assert(models(events@ + evs@) =~= models(events@) + models(evs@));
                assert(all_events(bv.take(i + 1)) == all_events(bv.take(i as int)) + spec_scan(
                    data@[i as int]@,
                ).0);
                assert forall|j: int|
                    0 <= j < i + 1 && all_complete(bv.take(i as int)) && spec_scan(
                        data@[i as int]@,
                    ).1 is None implies (#[trigger] spec_scan(bv.take(i + 1)[j])).1 is None by {
                    if j < i {
                        assert(bv.take(i + 1)[j] == bv.take(i as int)[j]);
                    }
                }
                assert(all_complete(bv.take(i as int)) && spec_scan(data@[i as int]@).1 is None
                    ==> all_complete(bv.take(i + 1)));
                assert(all_complete(bv.take(i + 1)) ==> all_complete(bv.take(i as int))
                    && spec_scan(data@[i as int]@).1 is None) by {
                    if all_complete(bv.take(i + 1)) {
                        assert forall|j: int| 0 <= j < i implies (#[trigger] spec_scan(
                            bv.take(i as int)[j],
                        )).1 is None by {
                            assert(bv.take(i + 1)[j] == bv.take(i as int)[j]);
                            assert(spec_scan(bv.take(i + 1)[j]).1 is None);
                        }
                        assert(bv.take(i + 1)[i as int] == data@[i as int]@);
                        assert(spec_scan(bv.take(i + 1)[i as int]).1 is None);
                    }
                }
            }
            events.append(&mut evs);
            complete = complete && fault.is_none();
            i = i + 1;
        }
        proof {
            assert(bv.take(data@.len() as int) =~= bv);
        }
        sort_events_by_time(&mut events);
        Trace { data, events, elapsed_ns, complete }
    }

    /// How many per-CPU buffers the capture produced.
    pub fn num_cpus(&self) -> (r: usize)
        ensures
            r == self.buffers().len(),
    {
        self.data.len()
    }

    /// One raw per-CPU buffer.
    pub fn buffer(&self, cpu: usize) -> (b: &Vec<u8>)
        requires
            cpu < self.buffers().len(),
        ensures
            b@ == self.buffers()[cpu as int],
    {
        &self.data[cpu]
    }

    /// Total length of the raw buffers: trace volume, not I/O volume.
    /// Exact for any trace this module builds, whatever the decode
    /// outcome.
    pub fn total_bytes(&self) -> (r: usize)
        requires
            self.wf(),
        ensures
            r == sum_lens(self.buffers()),
    {
        let ghost bv = self.buffers();
        let mut total: usize = 0;
        let mut i: usize = 0;
        proof {
            assert(bv.take(0) =~= Seq::<Seq<u8>>::empty());
        }
        while i < self.data.len()
            invariant
                i <= self.data@.len(),
                bv == self.buffers(),
                sum_lens(bv) <= usize::MAX,
                total == sum_lens(bv.take(i as int)),
            decreases self.data@.len() - i,
        {
            proof {
                assert(bv.take(i + 1).drop_last() =~= bv.take(i as int));
                assert(bv.take(i + 1).last() == self.data@[i as int]@);
                lemma_sum_lens_take(bv, i + 1);
                lemma_sum_lens_nonneg(bv.take(i as int));
            }
            total = total + self.data[i].len();
            i = i + 1;
        }
        proof {
            assert(bv.take(self.data@.len() as int) =~= bv);
        }
        total
    }

    /// Whether every buffer decoded without a fault; false marks a partial
    /// decode (an ABI or version mismatch somewhere in the stream).
    pub fn decode_complete(&self) -> (r: bool)
        ensures
            r == self.decode_ok(),
    {
        self.complete
    }

    /// The elapsed capture duration in nanoseconds.
    pub fn total_duration(&self) -> (r: u64)
        ensures
            r == self.elapsed(),
    {
        self.elapsed_ns
    }

    /// Sum of `bytes` over completed events whose category has every bit
    /// of `mask`, saturating at `usize::MAX`.
    fn sum_completed(&self, mask: u16) -> (r: usize)
        ensures
            r == if completed_bytes(self.event_models(), mask) <= usize::MAX {
                completed_bytes(self.event_models(), mask)
            } else {
                usize::MAX as int
            },
    {
        let ghost all = self.event_models();
        let mut total: usize = 0;
        let mut i: usize = 0;
        proof {
            assert(all.take(0) =~= Seq::<EventModel>::empty());
        }
        while i < self.events.len()
            invariant
                i <= self.events@.len(),
                all == self.event_models(),
                total == if completed_bytes(all.take(i as int), mask) <= usize::MAX {
                    completed_bytes(all.take(i as int), mask)
                } else {
                    usize::MAX as int
                },
            decreases self.events@.len() - i,
        {
            proof {
                assert(all.take(i + 1).drop_last() =~= all.take(i as int));
                assert(all.take(i + 1).last() == self.events@[i as int]@);
                lemma_completed_bytes_nonneg(all.take(i as int), mask);
            }
            let e = &self.events[i];
            if e.category.contains(mask) && e.action == Action::Complete {
                total = total.saturating_add(e.bytes as usize);
            }
            i = i + 1;
        }
        proof {
            assert(all.take(self.events@.len() as int) =~= all);
        }
        total
    }

    /// Sum of `bytes` over events whose category includes Read and whose
    /// action is Complete, saturating at `usize::MAX`.
    pub fn completed_reads(&self) -> (r: usize)
        ensures
            r == if completed_bytes(self.event_models(), CATEGORY_READ) <= usize::MAX {
                completed_bytes(self.event_models(), CATEGORY_READ)
            } else {
                usize::MAX as int
            },
    {
        self.sum_completed(CATEGORY_READ)
    }

    /// Sum of `bytes` over events whose category includes Write and whose
    /// action is Complete, saturating at `usize::MAX`.
    pub fn completed_writes(&self) -> (r: usize)
        ensures
            r == if completed_bytes(self.event_models(), CATEGORY_WRITE) <= usize::MAX {
                completed_bytes(self.event_models(), CATEGORY_WRITE)
            } else {
                usize::MAX as int
            },
    {
        self.sum_completed(CATEGORY_WRITE)
    }
}

impl Trace {
    /// Total time spent on I/O in nanoseconds, saturating at `u64::MAX`:
    /// one pass over the time-sorted events builds a map from sequence
    /// number to Insert timestamp; each Complete removes and looks up the
    /// matching Insert and accumulates the elapsed time if one was found.
    /// Unmatched Inserts and Completes (spanning the capture boundaries)
    /// contribute nothing.
    pub fn io_duration(&self) -> (r: u64)
        requires
            self.wf(),
        ensures
            r == if spec_io_duration(self.event_models()) <= u64::MAX {
                spec_io_duration(self.event_models())
            } else {
                u64::MAX as int
            },
    {
        let ghost all = self.event_models();
        let mut pending: std::collections::HashMap<u32, u64> = std::collections::HashMap::new();
        let mut total: u64 = 0;
        let ghost mut acc: int = 0;
        let mut i: usize = 0;
        proof {
            assert(all.skip(0) =~= all);
        }
        while i < self.events.len()
            invariant
                i <= self.events@.len(),
                all == self.event_models(),
                sorted_by_time(all),
                vstd::std_specs::hash::obeys_key_model::<u32>(),
                vstd::std_specs::hash::builds_valid_hashers::<std::hash::RandomState>(),
                spec_io_duration(all) == io_pass(all.skip(i as int), pending@, acc),
                acc >= 0,
                total == if acc <= u64::MAX {
                    acc
                } else {
                    u64::MAX as int
                },
                forall|k: u32, j: int|
                    #![trigger pending@[k], all[j]]
                    pending@.dom().contains(k) && i <= j < all.len() ==> pending@[k]
                        <= all[j].time,
            decreases self.events@.len() - i,
        {
            let ghost rest = all.skip(i as int);
            proof {
                assert(rest.first() == all[i as int]);
                assert(rest.drop_first() =~= all.skip(i + 1));
            }
            let e = &self.events[i];
            if e.action == Action::Insert {
                pending.insert(e.sequence, e.time);
            } else if e.action == Action::Complete {
                let ghost prev = pending@;
                match pending.remove(&e.sequence) {
                    Some(inserted_at) => {
                        proof {
                            assert(prev.contains_key(e.sequence) && prev[e.sequence]
                                == inserted_at);
                            assert(pending@ == prev.remove(e.sequence));
                            assert(inserted_at <= all[i as int].time);
                        }
                        let delta = e.time - inserted_at;
                        total = total.saturating_add(delta);
                        proof {
                            acc = acc + delta;
                        }
                    },
                    None => {
                        proof {
                            assert(!prev.contains_key(e.sequence));
                            assert(pending@ == prev.remove(e.sequence));
                            assert(pending@ =~= prev);
                        }
                    },
                }
            }
            i = i + 1;
        }
        proof {
            assert(all.skip(all.len() as int) =~= Seq::<EventModel>::empty());
        }
        total
    }

    /// Count of distinct sequence numbers observed, any action.
    pub fn num_requests(&self) -> (r: usize)
        ensures
            r == request_ids(self.event_models()).len(),
    {
        let ghost all = self.event_models();
        let mut seen: std::collections::HashSet<u32> = std::collections::HashSet::new();
        let mut i: usize = 0;
        proof {
            assert(all.take(0) =~= Seq::<EventModel>::empty());
            assert(seen@ =~= request_ids(all.take(0)));
        }
        while i < self.events.len()
            invariant
                i <= self.events@.len(),
                all == self.event_models(),
                vstd::std_specs::hash::obeys_key_model::<u32>(),
                vstd::std_specs::hash::builds_valid_hashers::<std::hash::RandomState>(),
                seen@ == request_ids(all.take(i as int)),
            decreases self.events@.len() - i,
        {
            proof {
                assert(all.take(i + 1).drop_last() =~= all.take(i as int));
                assert(all.take(i + 1).last() == self.events@[i as int]@);
            }
            seen.insert(self.events[i].sequence);
            i = i + 1;
        }
        proof {
            assert(all.take(self.events@.len() as int) =~= all);
        }
        seen.len()
    }
}

/// A pass that meets no Complete leaves the total untouched.
proof fn lemma_io_pass_no_complete(events: Seq<EventModel>, pending: Map<u32, u64>, acc: int)
    requires
        forall|i: int| 0 <= i < events.len() ==> (#[trigger] events[i]).action != Action::Complete,
    ensures
        io_pass(events, pending, acc) == acc,
    decreases events.len(),
{
    if events.len() > 0 {
        assert(forall|i: int|
            0 <= i < events.drop_first().len() ==> (#[trigger] events.drop_first()[i])
                == events[i + 1]);
        if events.first().action == Action::Insert {
            lemma_io_pass_no_complete(
                events.drop_first(),
                pending.insert(events.first().sequence, events.first().time),
                acc,
            );
        } else {
            lemma_io_pass_no_complete(events.drop_first(), pending, acc);
        }
    }
}

/// A pass over events with no Insert finds nothing to match, so the total
/// stays untouched.
proof fn lemma_io_pass_no_insert(events: Seq<EventModel>, acc: int)
    requires
        forall|i: int| 0 <= i < events.len() ==> (#[trigger] events[i]).action != Action::Insert,
    ensures
        io_pass(events, Map::empty(), acc) == acc,
    decreases events.len(),
{
    if events.len() > 0 {
        assert(forall|i: int|
            0 <= i < events.drop_first().len() ==> (#[trigger] events.drop_first()[i])
                == events[i + 1]);
        assert(!Map::<u32, u64>::empty().dom().contains(events.first().sequence));
        lemma_io_pass_no_insert(events.drop_first(), acc);
    }
}

/// Events that never complete — Inserts with no later Complete among them —
/// contribute nothing to the I/O duration.
pub proof fn lemma_io_duration_no_complete(events: Seq<EventModel>)
    requires
        forall|i: int| 0 <= i < events.len() ==> (#[trigger] events[i]).action != Action::Complete,
    ensures
        spec_io_duration(events) == 0,
{
    lemma_io_pass_no_complete(events, Map::empty(), 0);
}

/// Completes with no prior Insert among the events contribute nothing to
/// the I/O duration.
pub proof fn lemma_io_duration_no_insert(events: Seq<EventModel>)
    requires
        forall|i: int| 0 <= i < events.len() ==> (#[trigger] events[i]).action != Action::Insert,
    ensures
        spec_io_duration(events) == 0,
{
    lemma_io_pass_no_insert(events, 0);
}

/// A pass is unchanged by a trailing Insert, whatever map it carries.
proof fn lemma_io_pass_trailing_insert(
    events: Seq<EventModel>,
    e: EventModel,
    pending: Map<u32, u64>,
    acc: int,
)
    requires
        e.action == Action::Insert,
    ensures
        io_pass(events.push(e), pending, acc) == io_pass(events, pending, acc),
    decreases events.len(),
{
    let s = events.push(e);
    if events.len() == 0 {
        assert(s.first() == e);
        assert(s.drop_first() =~= Seq::<EventModel>::empty());
        assert(io_pass(s, pending, acc) == io_pass(
            s.drop_first(),
            pending.insert(e.sequence, e.time),
            acc,
        ));
        assert(io_pass(s.drop_first(), pending.insert(e.sequence, e.time), acc) == acc);
    } else {
        let f = events.first();
        assert(s.first() == f);
        assert(s.drop_first() =~= events.drop_first().push(e));
        if f.action == Action::Insert {
            lemma_io_pass_trailing_insert(
                events.drop_first(),
                e,
                pending.insert(f.sequence, f.time),
                acc,
            );
        } else if f.action == Action::Complete {
            if pending.dom().contains(f.sequence) {
                lemma_io_pass_trailing_insert(
                    events.drop_first(),
                    e,
                    pending.remove(f.sequence),
                    acc + f.time - pending[f.sequence],
                );
            } else {
                lemma_io_pass_trailing_insert(events.drop_first(), e, pending, acc);
            }
        } else {
            lemma_io_pass_trailing_insert(events.drop_first(), e, pending, acc);
        }
    }
}

/// An Insert with no later Complete of its sequence — here, one standing
/// after every other event — contributes nothing to the I/O duration.
pub proof fn lemma_unmatched_insert_contributes_nothing(events: Seq<EventModel>, e: EventModel)
    requires
        e.action == Action::Insert,
    ensures
        spec_io_duration(events.push(e)) == spec_io_duration(events),
{
    lemma_io_pass_trailing_insert(events, e, Map::empty(), 0);
}

/// A pass whose map never learns of `e.sequence` is unchanged by a
/// trailing Complete of that sequence.
proof fn lemma_io_pass_trailing_complete(
    events: Seq<EventModel>,
    e: EventModel,
    pending: Map<u32, u64>,
    acc: int,
)
    requires
        e.action == Action::Complete,
        !pending.dom().contains(e.sequence),
        forall|i: int|
            0 <= i < events.len() ==> !((#[trigger] events[i]).action == Action::Insert
                && events[i].sequence == e.sequence),
    ensures
        io_pass(events.push(e), pending, acc) == io_pass(events, pending, acc),
    decreases events.len(),
{
    let s = events.push(e);
    if events.len() == 0 {
        assert(s.first() == e);
        assert(s.drop_first() =~= Seq::<EventModel>::empty());
        assert(io_pass(s, pending, acc) == io_pass(s.drop_first(), pending, acc));
        assert(io_pass(s.drop_first(), pending, acc) == acc);
    } else {
        let f = events.first();
        assert(s.first() == f);
        assert(s.drop_first() =~= events.drop_first().push(e));
        assert(forall|i: int|
            0 <= i < events.drop_first().len() ==> (#[trigger] events.drop_first()[i])
                == events[i + 1]);
        if f.action == Action::Insert {
            assert(f.sequence != e.sequence);
            lemma_io_pass_trailing_complete(
                events.drop_first(),
                e,
                pending.insert(f.sequence, f.time),
                acc,
            );
        } else if f.action == Action::Complete {
            if pending.dom().contains(f.sequence) {
                lemma_io_pass_trailing_complete(
                    events.drop_first(),
                    e,
                    pending.remove(f.sequence),
                    acc + f.time - pending[f.sequence],
                );
            } else {
                lemma_io_pass_trailing_complete(events.drop_first(), e, pending, acc);
            }
        } else {
            lemma_io_pass_trailing_complete(events.drop_first(), e, pending, acc);
        }
    }
}

/// A Complete with no prior Insert of its sequence contributes nothing to
/// the I/O duration.
pub proof fn lemma_unmatched_complete_contributes_nothing(events: Seq<EventModel>, e: EventModel)
    requires
        e.action == Action::Complete,
        forall|i: int|
            0 <= i < events.len() ==> !((#[trigger] events[i]).action == Action::Insert
                && events[i].sequence == e.sequence),
    ensures
        spec_io_duration(events.push(e)) == spec_io_duration(events),
{
    lemma_io_pass_trailing_complete(events, e, Map::empty(), 0);
}

/// A buffer holding no complete header — in particular an empty one —
/// decodes to no events and no fault.
pub proof fn lemma_scan_short_buffer(b: Seq<u8>)
    requires
        b.len() < crate::codec::TRACE_HEADER_BYTES,
    ensures
        spec_scan(b) == (Seq::<EventModel>::empty(), None::<crate::codec::DecodeError>),
{
}

/// A completed-bytes sum is never negative.
pub proof fn lemma_completed_bytes_nonneg(events: Seq<EventModel>, mask: u16)
    ensures
        completed_bytes(events, mask) >= 0,
    decreases events.len(),
{
    if events.len() > 0 {
        lemma_completed_bytes_nonneg(events.drop_last(), mask);
    }
}

} // verus!
