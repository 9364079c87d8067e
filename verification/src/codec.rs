//! Decoder and encoder for the kernel's packed binary block-trace record
//! format.
//!
//! A record is a fixed 48-byte header followed by `pdu_len` opaque payload
//! bytes.  Header fields are little-endian (the producing CPU's native byte
//! order on this target).  The 32-bit `action` field is a tagged encoding:
//! the high 16 bits are a category bitset, the low 16 bits an enumerated
//! lifecycle stage; a low half outside the closed enumeration is a decode
//! fault signalling an ABI mismatch, not legitimate data.

use vstd::prelude::*;
use vstd::bytes::*;
use vstd::slice::slice_subrange;

verus! {

/// Size in bytes of one packed record header.
pub const TRACE_HEADER_BYTES: usize = 48;

/// Lifecycle stage of a block I/O request, the low 16 bits of the packed
/// action/category field.
#[derive(Clone, Copy, Debug, PartialEq, Eq, Structural)]
pub enum Action {
    Other,
    Queue,
    Backmerge,
    Frontmerge,
    GetRQ,
    SleepRQ,
    Requeue,
    Issue,
    Complete,
    Plug,
    UnplugIO,
    UnplugTimer,
    Insert,
    Split,
    Bounce,
    Remap,
    Abort,
    DrvData,
}

/// The numeric code of an action, as the kernel writes it.
pub open spec fn spec_action_code(a: Action) -> u32 {
    match a {
        Action::Other => 0,
        Action::Queue => 1,
        Action::Backmerge => 2,
        Action::Frontmerge => 3,
        Action::GetRQ => 4,
        Action::SleepRQ => 5,
        Action::Requeue => 6,
        Action::Issue => 7,
        Action::Complete => 8,
        Action::Plug => 9,
        Action::UnplugIO => 10,
        Action::UnplugTimer => 11,
        Action::Insert => 12,
        Action::Split => 13,
        Action::Bounce => 14,
        Action::Remap => 15,
        Action::Abort => 16,
        Action::DrvData => 17,
    }
}

/// The codes of the closed action enumeration; anything else is a decode
/// fault.
pub open spec fn valid_action_code(c: u32) -> bool {
    c <= 17
}

/// The action a numeric code stands for.
pub open spec fn spec_action_from_code(c: u32) -> Action
    recommends
        valid_action_code(c),
{
    if c == 0 {
        Action::Other
    } else if c == 1 {
        Action::Queue
    } else if c == 2 {
        Action::Backmerge
    } else if c == 3 {
        Action::Frontmerge
    } else if c == 4 {
        Action::GetRQ
    } else if c == 5 {
        Action::SleepRQ
    } else if c == 6 {
        Action::Requeue
    } else if c == 7 {
        Action::Issue
    } else if c == 8 {
        Action::Complete
    } else if c == 9 {
        Action::Plug
    } else if c == 10 {
        Action::UnplugIO
    } else if c == 11 {
        Action::UnplugTimer
    } else if c == 12 {
        Action::Insert
    } else if c == 13 {
        Action::Split
    } else if c == 14 {
        Action::Bounce
    } else if c == 15 {
        Action::Remap
    } else if c == 16 {
        Action::Abort
    } else {
        Action::DrvData
    }
}

/// Decoding inverts encoding on every action.
pub proof fn lemma_action_code_roundtrip(a: Action)
    ensures
        valid_action_code(spec_action_code(a)),
        spec_action_from_code(spec_action_code(a)) == a,
{
}

/// The action for `c`, or `None` when `c` falls outside the closed
/// enumeration.
pub fn action_from_code(c: u32) -> (r: Option<Action>)
    ensures
        valid_action_code(c) ==> r == Some(spec_action_from_code(c)),
        !valid_action_code(c) ==> r is None,
{
    match c {
        0 => Some(Action::Other),
        1 => Some(Action::Queue),
        2 => Some(Action::Backmerge),
        3 => Some(Action::Frontmerge),
        4 => Some(Action::GetRQ),
        5 => Some(Action::SleepRQ),
        6 => Some(Action::Requeue),
        7 => Some(Action::Issue),
        8 => Some(Action::Complete),
        9 => Some(Action::Plug),
        10 => Some(Action::UnplugIO),
        11 => Some(Action::UnplugTimer),
        12 => Some(Action::Insert),
        13 => Some(Action::Split),
        14 => Some(Action::Bounce),
        15 => Some(Action::Remap),
        16 => Some(Action::Abort),
        17 => Some(Action::DrvData),
        _ => None,
    }
}

/// The numeric code of `a`.
pub fn action_code(a: Action) -> (c: u32)
    ensures
        c == spec_action_code(a),
{
    match a {
        Action::Other => 0,
        Action::Queue => 1,
        Action::Backmerge => 2,
        Action::Frontmerge => 3,
        Action::GetRQ => 4,
        Action::SleepRQ => 5,
        Action::Requeue => 6,
        Action::Issue => 7,
        Action::Complete => 8,
        Action::Plug => 9,
        Action::UnplugIO => 10,
        Action::UnplugTimer => 11,
        Action::Insert => 12,
        Action::Split => 13,
        Action::Bounce => 14,
        Action::Remap => 15,
        Action::Abort => 16,
        Action::DrvData => 17,
    }
}

/// Category bit: read.
pub const CATEGORY_READ: u16 = 0x0001;

/// Category bit: write.
pub const CATEGORY_WRITE: u16 = 0x0002;

/// Category bit: flush.
pub const CATEGORY_FLUSH: u16 = 0x0004;

/// Category bit: synchronous I/O.
pub const CATEGORY_SYNC: u16 = 0x0008;

/// Category bit: queueing/merging.
pub const CATEGORY_QUEUE: u16 = 0x0010;

/// Category bit: requeueing.
pub const CATEGORY_REQUEUE: u16 = 0x0020;

/// Category bit: issue.
pub const CATEGORY_ISSUE: u16 = 0x0040;

/// Category bit: completions.
pub const CATEGORY_COMPLETE: u16 = 0x0080;

/// Category bit: filesystem requests.
pub const CATEGORY_FS: u16 = 0x0100;

/// Category bit: pc requests.
pub const CATEGORY_PC: u16 = 0x0200;

/// Category bit: special message.
pub const CATEGORY_NOTIFY: u16 = 0x0400;

/// Category bit: readahead.
pub const CATEGORY_AHEAD: u16 = 0x0800;

/// Category bit: metadata.
pub const CATEGORY_META: u16 = 0x1000;

/// Category bit: discard requests.
pub const CATEGORY_DISCARD: u16 = 0x2000;

/// Category bit: binary per-driver data.
pub const CATEGORY_DRV_DATA: u16 = 0x4000;

/// Category bit: forced-unit-access requests.
pub const CATEGORY_FUA: u16 = 0x8000;

/// Bitset of event categories, the high 16 bits of the packed
/// action/category field.
#[derive(Clone, Copy, Debug, PartialEq, Eq, Structural)]
pub struct Category {
    pub bits: u16,
}

impl Category {
    /// Whether every bit of `mask` is set.
    pub open spec fn spec_contains(self, mask: u16) -> bool {
        self.bits & mask == mask
    }

    /// A category bitset from raw bits; all 16 bits are defined, so nothing
    /// is truncated.
    pub fn from_bits_truncate(bits: u16) -> (r: Category)
        ensures
            r.bits == bits,
    {
        Category { bits }
    }

    /// An empty bitset.
    pub fn empty() -> (r: Category)
        ensures
            r.bits == 0,
    {
        Category { bits: 0 }
    }

    /// Whether every bit of `mask` is set.
    pub fn contains(&self, mask: u16) -> (r: bool)
        ensures
            r == self.spec_contains(mask),
    {
        self.bits & mask == mask
    }
}

/// The packed 32-bit action/category field: category in the high 16 bits,
/// action code in the low 16 bits.
pub open spec fn spec_pack_action(a: Action, c: Category) -> u32 {
    ((c.bits as u32) << 16) | spec_action_code(a)
}

/// Splitting the packed field recovers both halves.
pub proof fn lemma_pack_action_split(a: Action, c: Category)
    ensures
        spec_pack_action(a, c) & 0xffff == spec_action_code(a),
        (spec_pack_action(a, c) >> 16) as u16 == c.bits,
{
    let code = spec_action_code(a);
    let hi = c.bits;
    assert(code <= 17) by { lemma_action_code_roundtrip(a) };
    assert(code <= 17 ==> (((hi as u32) << 16) | code) & 0xffff == code) by (bit_vector);
    assert(code <= 17 ==> ((((hi as u32) << 16) | code) >> 16) as u16 == hi) by (bit_vector);
}

/// Variable-length trailing payload following some event headers.
#[derive(Debug, Clone)]
pub struct EventPDU {
    pub data: Vec<u8>,
}

/// One decoded block-layer event.
#[derive(Debug, Clone)]
pub struct Event {
    pub sequence: u32,
    pub time: u64,
    pub sector: u64,
    pub bytes: u32,
    pub action: Action,
    pub category: Category,
    pub pid: u32,
    pub device: u32,
    pub cpu: u32,
    pub error: u16,
    pub pdu: Option<EventPDU>,
}

/// The mathematical value of an [`Event`]: the same fields with the payload
/// as a byte sequence.
pub struct EventModel {
    pub sequence: u32,
    pub time: u64,
    pub sector: u64,
    pub bytes: u32,
    pub action: Action,
    pub category: Category,
    pub pid: u32,
    pub device: u32,
    pub cpu: u32,
    pub error: u16,
    pub pdu: Option<Seq<u8>>,
}

impl View for Event {
    type V = EventModel;

    open spec fn view(&self) -> EventModel {
        EventModel {
            sequence: self.sequence,
            time: self.time,
            sector: self.sector,
            bytes: self.bytes,
            action: self.action,
            category: self.category,
            pid: self.pid,
            device: self.device,
            cpu: self.cpu,
            error: self.error,
            pdu: match self.pdu {
                Some(ref p) => Some(p.data@),
                None => None,
            },
        }
    }
}

/// The mathematical values of a sequence of events.
pub open spec fn models(s: Seq<Event>) -> Seq<EventModel> {
    s.map_values(|e: Event| e@)
}

/// Whether two byte vectors hold the same bytes.
pub fn bytes_eq(a: &Vec<u8>, b: &Vec<u8>) -> (r: bool)
    ensures
        r <==> a@ == b@,
{
    if a.len() != b.len() {
        return false;
    }
    let mut i: usize = 0;
    while i < a.len()
        invariant
            a@.len() == b@.len(),
            i <= a@.len(),
            forall|j: int| 0 <= j < i ==> a@[j] == b@[j],
        decreases a@.len() - i,
    {
        if a[i] != b[i] {
            return false;
        }
        i = i + 1;
    }
    proof {
        assert(a@ =~= b@);
    }
    true
}

impl PartialEq for EventPDU {
    fn eq(&self, other: &EventPDU) -> (r: bool) {
        bytes_eq(&self.data, &other.data)
    }
}

impl vstd::std_specs::cmp::PartialEqSpecImpl for EventPDU {
    open spec fn obeys_eq_spec() -> bool {
        true
    }

    open spec fn eq_spec(&self, other: &EventPDU) -> bool {
        self.data@ == other.data@
    }
}

impl Eq for EventPDU {

}

impl PartialEq for Event {
    fn eq(&self, other: &Event) -> (r: bool) {
        let pdu_matches = match (&self.pdu, &other.pdu) {
            (Some(p), Some(q)) => bytes_eq(&p.data, &q.data),
            (None, None) => true,
            _ => false,
        };
        pdu_matches && self.sequence == other.sequence && self.time == other.time
            && self.sector == other.sector && self.bytes == other.bytes
            && self.action == other.action && self.category == other.category
            && self.pid == other.pid && self.device == other.device && self.cpu == other.cpu
            && self.error == other.error
    }
}

impl vstd::std_specs::cmp::PartialEqSpecImpl for Event {
    open spec fn obeys_eq_spec() -> bool {
        true
    }

    open spec fn eq_spec(&self, other: &Event) -> bool {
        self@ == other@
    }
}

impl Eq for Event {

}

/// The fixed-layout record header exactly as the kernel writes it.
#[derive(Clone, Copy, Debug, PartialEq, Eq, Structural)]
pub struct BlkIOTrace {
    pub magic: u32,
    pub sequence: u32,
    pub time: u64,
    pub sector: u64,
    pub bytes: u32,
    pub action: u32,
    pub pid: u32,
    pub device: u32,
    pub cpu: u32,
    pub error: u16,
    pub pdu_len: u16,
}

/// The header whose 48 bytes open the byte sequence `b`.
pub open spec fn spec_header_at(b: Seq<u8>) -> BlkIOTrace
    recommends
        b.len() >= TRACE_HEADER_BYTES,
{
    BlkIOTrace {
        magic: spec_u32_from_le_bytes(b.subrange(0, 4)),
        sequence: spec_u32_from_le_bytes(b.subrange(4, 8)),
        time: spec_u64_from_le_bytes(b.subrange(8, 16)),
        sector: spec_u64_from_le_bytes(b.subrange(16, 24)),
        bytes: spec_u32_from_le_bytes(b.subrange(24, 28)),
        action: spec_u32_from_le_bytes(b.subrange(28, 32)),
        pid: spec_u32_from_le_bytes(b.subrange(32, 36)),
        device: spec_u32_from_le_bytes(b.subrange(36, 40)),
        cpu: spec_u32_from_le_bytes(b.subrange(40, 44)),
        error: spec_u16_from_le_bytes(b.subrange(44, 46)),
        pdu_len: spec_u16_from_le_bytes(b.subrange(46, 48)),
    }
}

/// The event a header and its payload stand for: the packed action field is
/// split into its two typed halves in one step, and an empty payload is no
/// payload.
pub open spec fn spec_event_from(h: BlkIOTrace, pdu: Seq<u8>) -> EventModel
    recommends
        valid_action_code(h.action & 0xffff),
{
    EventModel {
        sequence: h.sequence,
        time: h.time,
        sector: h.sector,
        bytes: h.bytes,
        action: spec_action_from_code(h.action & 0xffff),
        category: Category { bits: (h.action >> 16) as u16 },
        pid: h.pid,
        device: h.device,
        cpu: h.cpu,
        error: h.error,
        pdu: if pdu.len() > 0 {
            Some(pdu)
        } else {
            None
        },
    }
}

/// A fault that ends the decode of one buffer: it signals an ABI or version
/// mismatch, not malformed user input.
#[derive(Clone, Copy, Debug, PartialEq, Eq, Structural)]
pub enum DecodeError {
    /// The low half of the packed action field is outside the closed
    /// enumeration.
    BadAction { code: u32 },
    /// The header's `pdu_len` runs past the end of the buffer.
    PduOverrun { pdu_len: u16 },
}

/// Decode a raw buffer into events, front to back: read a header, split the
/// packed action field, take `pdu_len` payload bytes, advance.  A final run
/// shorter than one header is a buffer cut mid-event and is silently
/// discarded; a bad action code or a payload overrun is a fault that ends
/// the decode.  Returns the events before the fault and the fault, if any.
pub open spec fn spec_scan(b: Seq<u8>) -> (Seq<EventModel>, Option<DecodeError>)
    decreases b.len(),
{
    if b.len() < TRACE_HEADER_BYTES {
        (Seq::empty(), None)
    } else {
        let h = spec_header_at(b);
        if !valid_action_code(h.action & 0xffff) {
            (Seq::empty(), Some(DecodeError::BadAction { code: h.action & 0xffff }))
        } else if TRACE_HEADER_BYTES + h.pdu_len > b.len() {
            (Seq::empty(), Some(DecodeError::PduOverrun { pdu_len: h.pdu_len }))
        } else {
            let e = spec_event_from(
                h,
                b.subrange(TRACE_HEADER_BYTES as int, TRACE_HEADER_BYTES + h.pdu_len),
            );
            let rest = spec_scan(b.subrange(TRACE_HEADER_BYTES + h.pdu_len, b.len() as int));
            (seq![e] + rest.0, rest.1)
        }
    }
}

/// Read the record header whose 48 bytes start at offset `off` of `b`.
pub fn read_header(b: &Vec<u8>, off: usize) -> (h: BlkIOTrace)
    requires
        off + TRACE_HEADER_BYTES <= b.len(),
    ensures
        h == spec_header_at(b@.skip(off as int)),
{
    let s = b.as_slice();
    let h = BlkIOTrace {
        magic: u32_from_le_bytes(slice_subrange(s, off, off + 4)),
        sequence: u32_from_le_bytes(slice_subrange(s, off + 4, off + 8)),
        time: u64_from_le_bytes(slice_subrange(s, off + 8, off + 16)),
        sector: u64_from_le_bytes(slice_subrange(s, off + 16, off + 24)),
        bytes: u32_from_le_bytes(slice_subrange(s, off + 24, off + 28)),
        action: u32_from_le_bytes(slice_subrange(s, off + 28, off + 32)),
        pid: u32_from_le_bytes(slice_subrange(s, off + 32, off + 36)),
        device: u32_from_le_bytes(slice_subrange(s, off + 36, off + 40)),
        cpu: u32_from_le_bytes(slice_subrange(s, off + 40, off + 44)),
        error: u16_from_le_bytes(slice_subrange(s, off + 44, off + 46)),
        pdu_len: u16_from_le_bytes(slice_subrange(s, off + 46, off + 48)),
    };
    proof {
        let t = b@.skip(off as int);
        assert(b@.subrange(off as int, off + 4) =~= t.subrange(0, 4));
        assert(b@.subrange(off + 4, off + 8) =~= t.subrange(4, 8));
        assert(b@.subrange(off + 8, off + 16) =~= t.subrange(8, 16));
        assert(b@.subrange(off + 16, off + 24) =~= t.subrange(16, 24));
        assert(b@.subrange(off + 24, off + 28) =~= t.subrange(24, 28));
        assert(b@.subrange(off + 28, off + 32) =~= t.subrange(28, 32));
        assert(b@.subrange(off + 32, off + 36) =~= t.subrange(32, 36));
        assert(b@.subrange(off + 36, off + 40) =~= t.subrange(36, 40));
        assert(b@.subrange(off + 40, off + 44) =~= t.subrange(40, 44));
        assert(b@.subrange(off + 44, off + 46) =~= t.subrange(44, 46));
        assert(b@.subrange(off + 46, off + 48) =~= t.subrange(46, 48));
    }
    h
}

impl Event {
    /// The event a raw header and its payload stand for.  An action code
    /// outside the closed enumeration is excluded here: decoders test it
    /// first and report a fault.
    pub fn from_raw(trace: &BlkIOTrace, pdu_data: &Vec<u8>) -> (e: Event)
        requires
            valid_action_code(trace.action & 0xffff),
        ensures
            e@ == spec_event_from(*trace, pdu_data@),
    {
        let action = match action_from_code(trace.action & 0xffff) {
            Some(a) => a,
            None => vstd::pervasive::unreached(),
        };
        let pdu = if pdu_data.len() > 0 {
            Some(EventPDU { data: pdu_data.clone() })
        } else {
            None
        };
        Event {
            sequence: trace.sequence,
            time: trace.time,
            sector: trace.sector,
            bytes: trace.bytes,
            action,
            category: Category::from_bits_truncate((trace.action >> 16) as u16),
            pid: trace.pid,
            device: trace.device,
            cpu: trace.cpu,
            error: trace.error,
            pdu,
        }
    }
}

/// Decode one raw per-CPU buffer into its ordered event sequence.  Every
/// read is bounds-checked; the decode never indexes past the buffer.
/// Returns the events decoded before any fault, and the fault if one ended
/// the decode early.
pub fn decode_buffer(b: &Vec<u8>) -> (r: (Vec<Event>, Option<DecodeError>))
    ensures
        models(r.0@) == spec_scan(b@).0,
        r.1 == spec_scan(b@).1,
{
    let mut out: Vec<Event> = Vec::new();
    let mut idx: usize = 0;
    proof {
        assert(b@.skip(0) =~= b@);
        assert(models(out@) =~= Seq::<EventModel>::empty());
        assert(models(out@) + spec_scan(b@).0 =~= spec_scan(b@).0);
    }
    while b.len() - idx >= TRACE_HEADER_BYTES
        invariant
            idx <= b@.len(),
            spec_scan(b@).0 == models(out@) + spec_scan(b@.skip(idx as int)).0,
            spec_scan(b@).1 == spec_scan(b@.skip(idx as int)).1,
        decreases b@.len() - idx,
    {
        let ghost tail = b@.skip(idx as int);
        let h = read_header(b, idx);
        let low = h.action & 0xffff;
        if action_from_code(low).is_none() {
            proof {
                assert(models(out@) + Seq::<EventModel>::empty() =~= models(out@));
            }
            return (out, Some(DecodeError::BadAction { code: low }));
        }
        let pl = h.pdu_len as usize;
        if pl > b.len() - idx - TRACE_HEADER_BYTES {
            proof {
                assert(models(out@) + Seq::<EventModel>::empty() =~= models(out@));
            }
            return (out, Some(DecodeError::PduOverrun { pdu_len: h.pdu_len }));
        }
        let pdu_bytes = vstd::slice::slice_to_vec(
            slice_subrange(b.as_slice(), idx + TRACE_HEADER_BYTES, idx + TRACE_HEADER_BYTES + pl),
        );
        proof {
            assert(pdu_bytes@ =~= tail.subrange(
                TRACE_HEADER_BYTES as int,
                TRACE_HEADER_BYTES + h.pdu_len,
            ));
        }
        let ev = Event::from_raw(&h, &pdu_bytes);
        proof {
            assert(models(out@.push(ev)) =~= models(out@) + seq![ev@]);
            assert(tail.subrange(TRACE_HEADER_BYTES + h.pdu_len, tail.len() as int) =~= b@.skip(
                idx + TRACE_HEADER_BYTES + h.pdu_len,
            ));
            assert(spec_scan(b@).0 == models(out@.push(ev)) + spec_scan(
                b@.skip(idx + TRACE_HEADER_BYTES + h.pdu_len),
            ).0);
        }
        out.push(ev);
        idx = idx + TRACE_HEADER_BYTES + pl;
    }
    proof {
        assert(models(out@) + Seq::<EventModel>::empty() =~= models(out@));
    }
    (out, None)
}

/// Decode a raw buffer, treating any fault as an error for the whole
/// buffer: `Ok` with all events when the buffer scans cleanly, `Err` with
/// the fault otherwise.
pub fn decode_events(b: &Vec<u8>) -> (r: Result<Vec<Event>, DecodeError>)
    ensures
        match r {
            Ok(events) => spec_scan(b@).1 is None && models(events@) == spec_scan(b@).0,
            Err(e) => spec_scan(b@).1 == Some(e),
        },
{
    let (events, fault) = decode_buffer(b);
    match fault {
        None => Ok(events),
        Some(e) => Err(e),
    }
}

/// The 48 bytes a header marshals to, field by field in layout order.
pub open spec fn spec_encode_header(h: BlkIOTrace) -> Seq<u8> {
    spec_u32_to_le_bytes(h.magic) + spec_u32_to_le_bytes(h.sequence) + spec_u64_to_le_bytes(h.time)
        + spec_u64_to_le_bytes(h.sector) + spec_u32_to_le_bytes(h.bytes) + spec_u32_to_le_bytes(
        h.action,
    ) + spec_u32_to_le_bytes(h.pid) + spec_u32_to_le_bytes(h.device) + spec_u32_to_le_bytes(h.cpu)
        + spec_u16_to_le_bytes(h.error) + spec_u16_to_le_bytes(h.pdu_len)
}

/// An encoded header is one header long, and reading a header back from it
/// (whatever follows) recovers every field.
pub proof fn lemma_header_at_encode(h: BlkIOTrace, tail: Seq<u8>)
    ensures
        spec_encode_header(h).len() == TRACE_HEADER_BYTES,
        spec_header_at(spec_encode_header(h) + tail) == h,
{
    lemma_auto_spec_u16_to_from_le_bytes();
    lemma_auto_spec_u32_to_from_le_bytes();
    lemma_auto_spec_u64_to_from_le_bytes();
    let b = spec_encode_header(h) + tail;
    assert(b.subrange(0, 4) =~= spec_u32_to_le_bytes(h.magic));
    assert(b.subrange(4, 8) =~= spec_u32_to_le_bytes(h.sequence));
    assert(b.subrange(8, 16) =~= spec_u64_to_le_bytes(h.time));
    assert(b.subrange(16, 24) =~= spec_u64_to_le_bytes(h.sector));
    assert(b.subrange(24, 28) =~= spec_u32_to_le_bytes(h.bytes));
    assert(b.subrange(28, 32) =~= spec_u32_to_le_bytes(h.action));
    assert(b.subrange(32, 36) =~= spec_u32_to_le_bytes(h.pid));
    assert(b.subrange(36, 40) =~= spec_u32_to_le_bytes(h.device));
    assert(b.subrange(40, 44) =~= spec_u32_to_le_bytes(h.cpu));
    assert(b.subrange(44, 46) =~= spec_u16_to_le_bytes(h.error));
    assert(b.subrange(46, 48) =~= spec_u16_to_le_bytes(h.pdu_len));
}

/// Marshal a header to its 48 bytes.
pub fn encode_header(h: &BlkIOTrace) -> (r: Vec<u8>)
    ensures
        r@ == spec_encode_header(*h),
{
    let mut out: Vec<u8> = Vec::new();
    let mut part = u32_to_le_bytes(h.magic);
    out.append(&mut part);
    let mut part = u32_to_le_bytes(h.sequence);
    out.append(&mut part);
    let mut part = u64_to_le_bytes(h.time);
    out.append(&mut part);
    let mut part = u64_to_le_bytes(h.sector);
    out.append(&mut part);
    let mut part = u32_to_le_bytes(h.bytes);
    out.append(&mut part);
    let mut part = u32_to_le_bytes(h.action);
    out.append(&mut part);
    let mut part = u32_to_le_bytes(h.pid);
    out.append(&mut part);
    let mut part = u32_to_le_bytes(h.device);
    out.append(&mut part);
    let mut part = u32_to_le_bytes(h.cpu);
    out.append(&mut part);
    let mut part = u16_to_le_bytes(h.error);
    out.append(&mut part);
    let mut part = u16_to_le_bytes(h.pdu_len);
    out.append(&mut part);
    out
}

/// Marshal one record: a header followed by its payload.
pub fn encode_record(h: &BlkIOTrace, pdu: &Vec<u8>) -> (r: Vec<u8>)
    requires
        h.pdu_len == pdu@.len(),
    ensures
        r@ == spec_encode_header(*h) + pdu@,
{
    let mut out = encode_header(h);
    let mut payload = pdu.clone();
    out.append(&mut payload);
    out
}

/// The payload bytes of an event model: none is empty.
pub open spec fn spec_pdu_of(e: EventModel) -> Seq<u8> {
    match e.pdu {
        Some(s) => s,
        None => Seq::empty(),
    }
}

/// An event model the codec can reproduce: a present payload is non-empty
/// and fits the header's 16-bit length field.
pub open spec fn wf_event_model(e: EventModel) -> bool {
    match e.pdu {
        Some(s) => 0 < s.len() <= u16::MAX,
        None => true,
    }
}

/// The header an event marshals to, under the given magic/version word.
pub open spec fn spec_header_of(e: EventModel, magic: u32) -> BlkIOTrace
    recommends
        wf_event_model(e),
{
    BlkIOTrace {
        magic,
        sequence: e.sequence,
        time: e.time,
        sector: e.sector,
        bytes: e.bytes,
        action: spec_pack_action(e.action, e.category),
        pid: e.pid,
        device: e.device,
        cpu: e.cpu,
        error: e.error,
        pdu_len: spec_pdu_of(e).len() as u16,
    }
}

/// The bytes one event marshals to: its header, then its payload.
pub open spec fn spec_encode_event(e: EventModel, magic: u32) -> Seq<u8> {
    spec_encode_header(spec_header_of(e, magic)) + spec_pdu_of(e)
}

impl Event {
    /// Marshal this event into one record, under the given magic/version
    /// word.
    pub fn encode(&self, magic: u32) -> (r: Vec<u8>)
        requires
            wf_event_model(self@),
        ensures
            r@ == spec_encode_event(self@, magic),
    {
        let pdu_len: u16 = match &self.pdu {
            Some(p) => p.data.len() as u16,
            None => 0,
        };
        let h = BlkIOTrace {
            magic,
            sequence: self.sequence,
            time: self.time,
            sector: self.sector,
            bytes: self.bytes,
            action: ((self.category.bits as u32) << 16) | action_code(self.action),
            pid: self.pid,
            device: self.device,
            cpu: self.cpu,
            error: self.error,
            pdu_len,
        };
        let mut out = encode_header(&h);
        match &self.pdu {
            Some(p) => {
                let mut payload = p.data.clone();
                out.append(&mut payload);
            },
            None => {
                proof {
                    assert(out@ + Seq::<u8>::empty() =~= out@);
                }
            },
        }
        out
    }
}

/// Scanning one encoded record recovers the event and leaves the rest of
/// the buffer to scan.
pub proof fn lemma_scan_encode_one(e: EventModel, magic: u32, rest: Seq<u8>)
    requires
        wf_event_model(e),
    ensures
        spec_scan(spec_encode_event(e, magic) + rest) == (
            seq![e] + spec_scan(rest).0,
            spec_scan(rest).1,
        ),
{
    let h = spec_header_of(e, magic);
    let pdu = spec_pdu_of(e);
    let b = spec_encode_event(e, magic) + rest;
    lemma_header_at_encode(h, pdu + rest);
    assert(b =~= spec_encode_header(h) + (pdu + rest));
    assert(spec_header_at(b) == h);
    lemma_pack_action_split(e.action, e.category);
    lemma_action_code_roundtrip(e.action);
    assert(h.action & 0xffff == spec_action_code(e.action));
    assert(valid_action_code(h.action & 0xffff));
    assert(h.pdu_len == pdu.len());
    assert(b.len() == TRACE_HEADER_BYTES + pdu.len() + rest.len());
    assert(b.subrange(TRACE_HEADER_BYTES as int, TRACE_HEADER_BYTES + h.pdu_len) =~= pdu);
    assert(spec_event_from(h, pdu) == e);
    assert(b.subrange(TRACE_HEADER_BYTES + h.pdu_len, b.len() as int) =~= rest);
}

/// The bytes a whole record sequence marshals to, in order.
pub open spec fn spec_encode_events(es: Seq<EventModel>, magic: u32) -> Seq<u8>
    decreases es.len(),
{
    if es.len() == 0 {
        Seq::empty()
    } else {
        spec_encode_event(es[0], magic) + spec_encode_events(es.drop_first(), magic)
    }
}

/// Round trip: marshaling any well-formed event sequence and scanning the
/// bytes back reproduces the same events, field for field, with no fault.
pub proof fn lemma_encode_decode_roundtrip(es: Seq<EventModel>, magic: u32)
    requires
        forall|i: int| 0 <= i < es.len() ==> wf_event_model(#[trigger] es[i]),
    ensures
        spec_scan(spec_encode_events(es, magic)) == (es, None::<DecodeError>),
    decreases es.len(),
{
    if es.len() == 0 {
        assert(spec_encode_events(es, magic).len() < TRACE_HEADER_BYTES);
        assert(spec_scan(spec_encode_events(es, magic)).0 =~= es);
    } else {
        let rest = es.drop_first();
        lemma_encode_decode_roundtrip(rest, magic);
        lemma_scan_encode_one(es[0], magic, spec_encode_events(rest, magic));
        assert(seq![es[0]] + rest =~= es);
    }
}

} // verus!
