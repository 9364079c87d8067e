//! The pure logic of the kernel tracing session lifecycle: the session
//! configuration, the byte-exact marshaling of the setup request the
//! control ioctl carries, the bounded setup retry policy, and the rules
//! that discover and order the per-CPU trace files.  The ioctls and the
//! directory listing themselves happen outside the library, which hands
//! these functions plain values.

use vstd::prelude::*;
use vstd::bytes::*;

use crate::trace::buf_views;

verus! {

broadcast use {
    vstd::seq_lib::group_to_multiset_ensures,
    vstd::seq_lib::lemma_multiset_commutative,
};

/// Immutable per-session tracing parameters.
#[derive(Clone, Copy, Debug, PartialEq, Eq, Structural)]
pub struct BlktraceConfig {
    buffer_size: u32,
    buffer_subbuffers: u32,
    trace_mask: u16,
}

impl BlktraceConfig {
    /// Kernel-side buffer size in bytes.
    pub closed spec fn spec_buffer_size(&self) -> u32 {
        self.buffer_size
    }

    /// Number of kernel-side sub-buffers.
    pub closed spec fn spec_subbuffers(&self) -> u32 {
        self.buffer_subbuffers
    }

    /// Mask of event actions to capture.
    pub closed spec fn spec_trace_mask(&self) -> u16 {
        self.trace_mask
    }

    /// The default configuration: 512 KiB buffers, 4 sub-buffers, all
    /// actions.
    pub fn default() -> (c: BlktraceConfig)
        ensures
            c.spec_buffer_size() == 1024 * 512,
            c.spec_subbuffers() == 4,
            c.spec_trace_mask() == 0xffff,
    {
        BlktraceConfig { buffer_size: 1024 * 512, buffer_subbuffers: 4, trace_mask: 0xffff }
    }

    /// The same configuration with another action mask.
    pub fn set_trace_mask(&self, mask: u16) -> (c: BlktraceConfig)
        ensures
            c.spec_buffer_size() == self.spec_buffer_size(),
            c.spec_subbuffers() == self.spec_subbuffers(),
            c.spec_trace_mask() == mask,
    {
        let mut s = *self;
        s.trace_mask = mask;
        s
    }

    /// The same configuration with another buffer size.
    pub fn set_buffer_size(&self, buffer_size: u32) -> (c: BlktraceConfig)
        ensures
            c.spec_buffer_size() == buffer_size,
            c.spec_subbuffers() == self.spec_subbuffers(),
            c.spec_trace_mask() == self.spec_trace_mask(),
    {
        let mut s = *self;
        s.buffer_size = buffer_size;
        s
    }

    /// The same configuration with another sub-buffer count.
    pub fn set_buffer_subbuffers(&self, buffer_subbuffers: u32) -> (c: BlktraceConfig)
        ensures
            c.spec_buffer_size() == self.spec_buffer_size(),
            c.spec_subbuffers() == buffer_subbuffers,
            c.spec_trace_mask() == self.spec_trace_mask(),
    {
        let mut s = *self;
        s.buffer_subbuffers = buffer_subbuffers;
        s
    }

    /// The setup request this configuration asks the kernel for: name left
    /// for the kernel to fill, LBA bounds and pid zero.
    pub fn setup_request(&self) -> (s: BlkUserTraceSetup)
        ensures
            s.wf(),
            s.name@ == Seq::<u8>::new(32, |i: int| 0u8),
            s.act_mask == self.spec_trace_mask(),
            s.buf_size == self.spec_buffer_size(),
            s.buf_nr == self.spec_subbuffers(),
            s.start_lba == 0u64,
            s.end_lba == 0u64,
            s.pid == 0u32,
    {
        let mut name: Vec<u8> = Vec::new();
        let mut i: usize = 0;
        while i < 32
            invariant
                i <= 32,
                name@.len() == i,
                forall|j: int| 0 <= j < i ==> name@[j] == 0u8,
            decreases 32 - i,
        {
            name.push(0u8);
            i = i + 1;
        }
        proof {
            assert(name@ =~= Seq::<u8>::new(32, |i: int| 0u8));
        }
        BlkUserTraceSetup {
            name,
            act_mask: self.trace_mask,
            buf_size: self.buffer_size,
            buf_nr: self.buffer_subbuffers,
            start_lba: 0,
            end_lba: 0,
            pid: 0,
        }
    }
}

/// The versioned kernel setup request: a 32-byte name the kernel fills in,
/// the action mask, buffer geometry, LBA bounds and pid.  Marshaled
/// byte-for-byte, padding included, by [`encode_setup`].
#[derive(Debug, Clone)]
pub struct BlkUserTraceSetup {
    pub name: Vec<u8>,
    pub act_mask: u16,
    pub buf_size: u32,
    pub buf_nr: u32,
    pub start_lba: u64,
    pub end_lba: u64,
    pub pid: u32,
}

impl BlkUserTraceSetup {
    /// The name field carries exactly its 32 marshaled bytes.
    pub open spec fn wf(&self) -> bool {
        self.name@.len() == 32
    }
}

/// Size in bytes of the marshaled setup request, padding included.
pub const SETUP_REQUEST_BYTES: usize = 72;

/// The 72 bytes the setup request marshals to: the fields in declaration
/// order, little-endian, with the padding the kernel's C layout inserts
/// (two bytes after the 16-bit mask, four before the first 64-bit bound,
/// four after the pid).
pub open spec fn spec_encode_setup(s: BlkUserTraceSetup) -> Seq<u8>
    recommends
        s.wf(),
{
    s.name@ + spec_u16_to_le_bytes(s.act_mask) + seq![0u8, 0u8] + spec_u32_to_le_bytes(s.buf_size)
        + spec_u32_to_le_bytes(s.buf_nr) + seq![0u8, 0u8, 0u8, 0u8] + spec_u64_to_le_bytes(
        s.start_lba,
    ) + spec_u64_to_le_bytes(s.end_lba) + spec_u32_to_le_bytes(s.pid) + seq![0u8, 0u8, 0u8, 0u8]
}

/// Marshal the setup request to the bytes the control ioctl carries.
pub fn encode_setup(s: &BlkUserTraceSetup) -> (r: Vec<u8>)
    requires
        s.wf(),
    ensures
        r@ == spec_encode_setup(*s),
        r@.len() == SETUP_REQUEST_BYTES,
{
    let mut out: Vec<u8> = Vec::new();
    let mut part = s.name.clone();
    out.append(&mut part);
    let mut part = u16_to_le_bytes(s.act_mask);
    out.append(&mut part);
    out.push(0);
    out.push(0);
    let mut part = u32_to_le_bytes(s.buf_size);
    out.append(&mut part);
    let mut part = u32_to_le_bytes(s.buf_nr);
    out.append(&mut part);
    out.push(0);
    out.push(0);
    out.push(0);
    out.push(0);
    let mut part = u64_to_le_bytes(s.start_lba);
    out.append(&mut part);
    let mut part = u64_to_le_bytes(s.end_lba);
    out.append(&mut part);
    let mut part = u32_to_le_bytes(s.pid);
    out.append(&mut part);
    out.push(0);
    out.push(0);
    out.push(0);
    out.push(0);
    proof {
        assert(out@ =~= spec_encode_setup(*s));
    }
    out
}

/// Unmarshal a setup request the kernel handed back.  `None` exactly when
/// the byte count is not the marshaled size; padding bytes are ignored.
pub fn decode_setup(b: &Vec<u8>) -> (r: Option<BlkUserTraceSetup>)
    ensures
        b@.len() != SETUP_REQUEST_BYTES ==> r is None,
        b@.len() == SETUP_REQUEST_BYTES ==> match r {
            Some(s) => {
                &&& s.wf()
                &&& s.name@ == b@.subrange(0, 32)
                &&& s.act_mask == spec_u16_from_le_bytes(b@.subrange(32, 34))
                &&& s.buf_size == spec_u32_from_le_bytes(b@.subrange(36, 40))
                &&& s.buf_nr == spec_u32_from_le_bytes(b@.subrange(40, 44))
                &&& s.start_lba == spec_u64_from_le_bytes(b@.subrange(48, 56))
                &&& s.end_lba == spec_u64_from_le_bytes(b@.subrange(56, 64))
                &&& s.pid == spec_u32_from_le_bytes(b@.subrange(64, 68))
            },
            None => false,
        },
{
    if b.len() != SETUP_REQUEST_BYTES {
        return None;
    }
    let sl = b.as_slice();
    let name = vstd::slice::slice_to_vec(vstd::slice::slice_subrange(sl, 0, 32));
    Some(
        BlkUserTraceSetup {
            name,
            act_mask: u16_from_le_bytes(vstd::slice::slice_subrange(sl, 32, 34)),
            buf_size: u32_from_le_bytes(vstd::slice::slice_subrange(sl, 36, 40)),
            buf_nr: u32_from_le_bytes(vstd::slice::slice_subrange(sl, 40, 44)),
            start_lba: u64_from_le_bytes(vstd::slice::slice_subrange(sl, 48, 56)),
            end_lba: u64_from_le_bytes(vstd::slice::slice_subrange(sl, 56, 64)),
            pid: u32_from_le_bytes(vstd::slice::slice_subrange(sl, 64, 68)),
        },
    )
}

/// Marshaling and unmarshaling a setup request is the identity on every
/// field: what the kernel reads is exactly what was configured, and what
/// it writes back is exactly what is read out.
pub proof fn lemma_setup_roundtrip(s: BlkUserTraceSetup)
    requires
        s.wf(),
    ensures
        spec_encode_setup(s).len() == SETUP_REQUEST_BYTES,
        spec_encode_setup(s).subrange(0, 32) == s.name@,
        spec_u16_from_le_bytes(spec_encode_setup(s).subrange(32, 34)) == s.act_mask,
        spec_u32_from_le_bytes(spec_encode_setup(s).subrange(36, 40)) == s.buf_size,
        spec_u32_from_le_bytes(spec_encode_setup(s).subrange(40, 44)) == s.buf_nr,
        spec_u64_from_le_bytes(spec_encode_setup(s).subrange(48, 56)) == s.start_lba,
        spec_u64_from_le_bytes(spec_encode_setup(s).subrange(56, 64)) == s.end_lba,
        spec_u32_from_le_bytes(spec_encode_setup(s).subrange(64, 68)) == s.pid,
{
    lemma_auto_spec_u16_to_from_le_bytes();
    lemma_auto_spec_u32_to_from_le_bytes();
    lemma_auto_spec_u64_to_from_le_bytes();
    let b = spec_encode_setup(s);
    assert(b.subrange(0, 32) =~= s.name@);
    assert(b.subrange(32, 34) =~= spec_u16_to_le_bytes(s.act_mask));
    assert(b.subrange(36, 40) =~= spec_u32_to_le_bytes(s.buf_size));
    assert(b.subrange(40, 44) =~= spec_u32_to_le_bytes(s.buf_nr));
    assert(b.subrange(48, 56) =~= spec_u64_to_le_bytes(s.start_lba));
    assert(b.subrange(56, 64) =~= spec_u64_to_le_bytes(s.end_lba));
    assert(b.subrange(64, 68) =~= spec_u32_to_le_bytes(s.pid));
}

/// Bound on setup attempts; exceeding it is fatal.
pub const MAX_SETUP_ATTEMPTS: u32 = 10;

/// Where the setup retry loop stands.
#[derive(Clone, Copy, Debug, PartialEq, Eq, Structural)]
pub enum SetupPhase {
    /// Another SETUP request may be issued.
    Trying,
    /// A SETUP request succeeded; the session can proceed.
    Succeeded,
    /// The attempt bound was exhausted; opening the session is fatal.
    Failed,
}

/// The bounded-retry policy for the SETUP control request: attempts are
/// issued while the phase is `Trying`; each failure (after the caller
/// issues STOP and TEARDOWN) counts against the bound.
#[derive(Clone, Copy, Debug, PartialEq, Eq, Structural)]
pub struct SetupRetry {
    pub attempts: u32,
    pub phase: SetupPhase,
}

/// What recording one attempt outcome does to the retry state.
pub open spec fn spec_setup_step(s: SetupRetry, ok: bool) -> SetupRetry
    recommends
        s.attempts < MAX_SETUP_ATTEMPTS,
{
    SetupRetry {
        attempts: (s.attempts + 1) as u32,
        phase: if ok {
            SetupPhase::Succeeded
        } else if s.attempts + 1 < MAX_SETUP_ATTEMPTS {
            SetupPhase::Trying
        } else {
            SetupPhase::Failed
        },
    }
}

/// Driving the retry state through a sequence of attempt outcomes, issuing
/// attempts only while the phase allows one.
pub open spec fn spec_setup_run(s: SetupRetry, outcomes: Seq<bool>) -> SetupRetry
    decreases outcomes.len(),
{
    if outcomes.len() == 0 || s.phase != SetupPhase::Trying {
        s
    } else {
        spec_setup_run(spec_setup_step(s, outcomes.first()), outcomes.drop_first())
    }
}

impl SetupRetry {
    /// The attempt count never passes the bound, and attempts are only
    /// issued strictly under it.
    pub open spec fn wf(&self) -> bool {
        &&& self.attempts <= MAX_SETUP_ATTEMPTS
        &&& self.phase == SetupPhase::Trying ==> self.attempts < MAX_SETUP_ATTEMPTS
    }

    /// A fresh retry state: nothing attempted yet.
    pub fn new() -> (s: SetupRetry)
        ensures
            s.wf(),
            s == (SetupRetry { attempts: 0, phase: SetupPhase::Trying }),
    {
        SetupRetry { attempts: 0, phase: SetupPhase::Trying }
    }

    /// Whether another SETUP request should be issued now.
    pub fn should_attempt(&self) -> (r: bool)
        ensures
            r == (self.phase == SetupPhase::Trying),
    {
        match self.phase {
            SetupPhase::Trying => true,
            _ => false,
        }
    }

    /// Record the outcome of one SETUP request.  On failure the caller
    /// issues STOP and TEARDOWN before asking whether to try again.
    pub fn record(&mut self, ok: bool)
        requires
            old(self).wf(),
            old(self).phase == SetupPhase::Trying,
        ensures
            final(self).wf(),
            *final(self) == spec_setup_step(*old(self), ok),
    {
        self.attempts = self.attempts + 1;
        self.phase = if ok {
            SetupPhase::Succeeded
        } else if self.attempts < MAX_SETUP_ATTEMPTS {
            SetupPhase::Trying
        } else {
            SetupPhase::Failed
        };
    }

    /// How many SETUP requests have been issued.
    pub fn attempts_made(&self) -> (r: u32)
        ensures
            r == self.attempts,
    {
        self.attempts
    }

    /// Whether a SETUP request has succeeded.
    pub fn succeeded(&self) -> (r: bool)
        ensures
            r == (self.phase == SetupPhase::Succeeded),
    {
        match self.phase {
            SetupPhase::Succeeded => true,
            _ => false,
        }
    }

    /// Whether the attempt bound was exhausted without success.
    pub fn gave_up(&self) -> (r: bool)
        ensures
            r == (self.phase == SetupPhase::Failed),
    {
        match self.phase {
            SetupPhase::Failed => true,
            _ => false,
        }
    }
}

/// When the kernel rejects SETUP on every attempt, the session gives up
/// after exactly the attempt bound, never more and never fewer.
pub proof fn lemma_setup_rejected_every_time(s: SetupRetry, outcomes: Seq<bool>)
    requires
        s.wf(),
        s.phase == SetupPhase::Trying,
        outcomes.len() >= MAX_SETUP_ATTEMPTS - s.attempts,
        forall|i: int| 0 <= i < outcomes.len() ==> !(#[trigger] outcomes[i]),
    ensures
        spec_setup_run(s, outcomes) == (SetupRetry {
            attempts: MAX_SETUP_ATTEMPTS,
            phase: SetupPhase::Failed,
        }),
    decreases outcomes.len(),
{
    assert(forall|i: int|
        0 <= i < outcomes.drop_first().len() ==> (#[trigger] outcomes.drop_first()[i])
            == outcomes[i + 1]);
    let next = spec_setup_step(s, outcomes.first());
    if next.phase == SetupPhase::Trying {
        lemma_setup_rejected_every_time(next, outcomes.drop_first());
    } else {
        lemma_setup_run_stopped(next, outcomes.drop_first());
    }
}

/// Once the phase no longer allows an attempt, further outcomes change
/// nothing.
pub proof fn lemma_setup_run_stopped(s: SetupRetry, outcomes: Seq<bool>)
    requires
        s.phase != SetupPhase::Trying,
    ensures
        spec_setup_run(s, outcomes) == s,
{
}

/// A SETUP success stops the retry loop at once: no further attempt is
/// issued after it.
pub proof fn lemma_setup_stops_on_success(s: SetupRetry, outcomes: Seq<bool>)
    requires
        s.wf(),
        s.phase == SetupPhase::Trying,
        outcomes.len() > 0,
        outcomes.first(),
    ensures
        spec_setup_run(s, outcomes) == spec_setup_step(s, true),
        spec_setup_run(s, outcomes).phase == SetupPhase::Succeeded,
{
    lemma_setup_run_stopped(spec_setup_step(s, true), outcomes.drop_first());
}

/// Index of the first NUL byte, or the length when there is none.
pub open spec fn first_nul(s: Seq<u8>) -> int
    decreases s.len(),
{
    if s.len() == 0 {
        0
    } else if s.first() == 0 {
        0
    } else {
        1 + first_nul(s.drop_first())
    }
}

/// Bounds and characterization of [`first_nul`]: everything before it is
/// non-NUL, and it lands on a NUL unless there is none.
pub proof fn lemma_first_nul(s: Seq<u8>)
    ensures
        0 <= first_nul(s) <= s.len(),
        forall|j: int| 0 <= j < first_nul(s) ==> s[j] != 0,
        first_nul(s) < s.len() ==> s[first_nul(s)] == 0,
    decreases s.len(),
{
    if s.len() > 0 && s.first() != 0 {
        lemma_first_nul(s.drop_first());
        assert forall|j: int| 0 <= j < first_nul(s) implies s[j] != 0 by {
            if j > 0 {
                assert(s.drop_first()[j - 1] == s[j]);
                assert(s.drop_first()[j - 1] != 0);
            }
        }
        if first_nul(s) < s.len() {
            assert(s.drop_first()[first_nul(s.drop_first())] == s[first_nul(s)]);
        }
    }
}

/// The kernel-assigned short device name: the bytes of the fixed-size name
/// field up to its first NUL, or all of them when none is NUL.
pub fn device_name_bytes(name: &Vec<u8>) -> (r: Vec<u8>)
    ensures
        r@ == name@.take(first_nul(name@)),
{
    proof {
        lemma_first_nul(name@);
    }
    let mut i: usize = 0;
    while i < name.len() && name[i] != 0
        invariant
            i <= name@.len(),
            forall|j: int| 0 <= j < i ==> name@[j] != 0,
        decreases name@.len() - i,
    {
        i = i + 1;
    }
    proof {
        lemma_first_nul_at(name@, i as int);
    }
    let mut out: Vec<u8> = Vec::new();
    let mut j: usize = 0;
    while j < i
        invariant
            j <= i <= name@.len(),
            out@ == name@.take(j as int),
        decreases i - j,
    {
        proof {
            assert(name@.take(j + 1) =~= name@.take(j as int).push(name@[j as int]));
        }
        out.push(name[j]);
        j = j + 1;
    }
    out
}

/// A position with no NUL before it that is the length or holds a NUL is
/// exactly [`first_nul`].
proof fn lemma_first_nul_at(s: Seq<u8>, i: int)
    requires
        0 <= i <= s.len(),
        forall|j: int| 0 <= j < i ==> s[j] != 0,
        i < s.len() ==> s[i] == 0,
    ensures
        first_nul(s) == i,
    decreases s.len(),
{
    if s.len() > 0 && i > 0 {
        assert(forall|j: int|
            0 <= j < s.drop_first().len() ==> (#[trigger] s.drop_first()[j]) == s[j + 1]);
        lemma_first_nul_at(s.drop_first(), i - 1);
    }
}

/// Whether a directory entry is a per-CPU trace file of the session's
/// device: the name opens with `trace` and carries at least one more
/// character (the CPU number).
pub open spec fn spec_is_trace_name(s: Seq<u8>) -> bool {
    s.len() >= 6 && s[0] == 116u8 && s[1] == 114u8 && s[2] == 97u8 && s[3] == 99u8 && s[4] == 101u8
}

/// Whether a file name (as bytes) is a per-CPU trace file name.
pub fn is_trace_file_name(name: &Vec<u8>) -> (r: bool)
    ensures
        r == spec_is_trace_name(name@),
{
    name.len() >= 6 && name[0] == 116u8 && name[1] == 114u8 && name[2] == 97u8 && name[3] == 99u8
        && name[4] == 101u8
}

/// The per-CPU trace file names among the directory entries, in the order
/// given.
pub open spec fn trace_names_of(names: Seq<Seq<u8>>) -> Seq<Seq<u8>>
    decreases names.len(),
{
    if names.len() == 0 {
        Seq::empty()
    } else {
        trace_names_of(names.drop_last()) + if spec_is_trace_name(names.last()) {
            seq![names.last()]
        } else {
            Seq::empty()
        }
    }
}

/// Keep exactly the per-CPU trace file names, in the order given.
pub fn filter_trace_names(names: &Vec<Vec<u8>>) -> (r: Vec<Vec<u8>>)
    ensures
        buf_views(r@) == trace_names_of(buf_views(names@)),
{
    let mut out: Vec<Vec<u8>> = Vec::new();
    let mut i: usize = 0;
    proof {
        assert(buf_views(names@).take(0) =~= Seq::<Seq<u8>>::empty());
        assert(buf_views(out@) =~= trace_names_of(buf_views(names@).take(0)));
    }
    while i < names.len()
        invariant
            i <= names@.len(),
            buf_views(out@) == trace_names_of(buf_views(names@).take(i as int)),
        decreases names@.len() - i,
    {
        let ghost nv = buf_views(names@);
        proof {
            assert(nv.take(i + 1).drop_last() =~= nv.take(i as int));
            assert(nv.take(i + 1).last() == names@[i as int]@);
        }
        if is_trace_file_name(&names[i]) {
            out.push(names[i].clone());
            proof {
                assert(buf_views(out@) =~= trace_names_of(nv.take(i + 1)));
            }
        } else {
            proof {
                assert(buf_views(out@) =~= trace_names_of(nv.take(i + 1)));
            }
        }
        i = i + 1;
    }
    proof {
        assert(buf_views(names@).take(names@.len() as int) =~= buf_views(names@));
    }
    out
}

/// Lexicographic byte order on names: the order in which the per-CPU
/// trace files are assigned their CPU indices.
pub open spec fn lex_le(a: Seq<u8>, b: Seq<u8>) -> bool
    decreases a.len(),
{
    if a.len() == 0 {
        true
    } else if b.len() == 0 {
        false
    } else if a.first() < b.first() {
        true
    } else if a.first() > b.first() {
        false
    } else {
        lex_le(a.drop_first(), b.drop_first())
    }
}

/// Names that agree on a prefix compare as their remainders do.
proof fn lemma_lex_le_skip(a: Seq<u8>, b: Seq<u8>, i: int)
    requires
        0 <= i <= a.len(),
        i <= b.len(),
        forall|j: int| 0 <= j < i ==> a[j] == b[j],
    ensures
        lex_le(a, b) == lex_le(a.skip(i), b.skip(i)),
    decreases i,
{
    if i == 0 {
        assert(a.skip(0) =~= a);
        assert(b.skip(0) =~= b);
    } else {
        assert(a.first() == b.first());
        assert(forall|j: int|
            0 <= j < i - 1 ==> (#[trigger] a.drop_first()[j]) == b.drop_first()[j]);
        lemma_lex_le_skip(a.drop_first(), b.drop_first(), i - 1);
        assert(a.drop_first().skip(i - 1) =~= a.skip(i));
        assert(b.drop_first().skip(i - 1) =~= b.skip(i));
    }
}

/// Any two names compare one way or the other.
pub proof fn lemma_lex_le_total(a: Seq<u8>, b: Seq<u8>)
    ensures
        lex_le(a, b) || lex_le(b, a),
    decreases a.len(),
{
    if a.len() > 0 && b.len() > 0 && a.first() == b.first() {
        lemma_lex_le_total(a.drop_first(), b.drop_first());
    }
}

/// The order chains.
pub proof fn lemma_lex_le_trans(a: Seq<u8>, b: Seq<u8>, c: Seq<u8>)
    requires
        lex_le(a, b),
        lex_le(b, c),
    ensures
        lex_le(a, c),
    decreases a.len(),
{
    if a.len() > 0 && b.len() > 0 && c.len() > 0 && a.first() == b.first() && b.first()
        == c.first() {
        lemma_lex_le_trans(a.drop_first(), b.drop_first(), c.drop_first());
    }
}

/// Whether `a` sorts at or before `b` in lexicographic byte order.
pub fn lex_le_bytes(a: &Vec<u8>, b: &Vec<u8>) -> (r: bool)
    ensures
        r == lex_le(a@, b@),
{
    let mut i: usize = 0;
    while i < a.len() && i < b.len()
        invariant
            i <= a@.len(),
            i <= b@.len(),
            forall|j: int| 0 <= j < i ==> a@[j] == b@[j],
        decreases a@.len() - i,
    {
        if a[i] < b[i] {
            proof {
                lemma_lex_le_skip(a@, b@, i as int);
            }
            return true;
        }
        if a[i] > b[i] {
            proof {
                lemma_lex_le_skip(a@, b@, i as int);
            }
            return false;
        }
        i = i + 1;
    }
    proof {
        lemma_lex_le_skip(a@, b@, i as int);
    }
    i == a.len()
}

/// Non-decreasing lexicographic order.
pub open spec fn sorted_by_name(s: Seq<Seq<u8>>) -> bool {
    forall|i: int, j: int| 0 <= i < j < s.len() ==> lex_le(s[i], s[j])
}

/// Sort the trace file names in place into lexicographic order — the
/// deterministic CPU indexing — keeping exactly the same names.
pub fn sort_trace_paths(v: &mut Vec<Vec<u8>>)
    ensures
        buf_views(final(v)@).to_multiset() == buf_views(old(v)@).to_multiset(),
        sorted_by_name(buf_views(final(v)@)),
{
    if v.len() == 0 {
        return;
    }
    let mut i: usize = 1;
    while i < v.len()
        invariant
            1 <= i <= v@.len(),
            buf_views(v@).to_multiset() == buf_views(old(v)@).to_multiset(),
            sorted_by_name(buf_views(v@).take(i as int)),
        decreases v@.len() - i,
    {
        let ghost before = buf_views(v@);
        let x = v.remove(i);
        proof {
            assert(buf_views(v@) =~= before.remove(i as int));
            assert(before[i as int] == x@);
            assert(before.contains(x@));
        }
        let mut pos: usize = 0;
        while pos < i && lex_le_bytes(&v[pos], &x)
            invariant
                pos <= i <= v@.len(),
                buf_views(v@) == before.remove(i as int),
                forall|j: int| 0 <= j < pos ==> lex_le(#[trigger] buf_views(v@)[j], x@),
            decreases i - pos,
        {
            pos = pos + 1;
        }
        let ghost after_rm = buf_views(v@);
        proof {
            if pos < i {
                lemma_lex_le_total(after_rm[pos as int], x@);
            }
        }
        v.insert(pos, x);
        proof {
            assert(buf_views(v@) =~= after_rm.insert(pos as int, x@));
            assert(buf_views(v@).to_multiset() =~= before.to_multiset());
            let s = buf_views(v@);
            assert forall|a: int, b: int| 0 <= a < b < i + 1 implies lex_le(s[a], s[b]) by {
                assert(forall|k: int|
                    0 <= k < s.len() ==> s[k] == if k < pos {
                        after_rm[k]
                    } else if k == pos {
                        x@
                    } else {
                        after_rm[k - 1]
                    });
                assert(forall|j: int, k: int|
                    0 <= j < k < i ==> lex_le(#[trigger] after_rm[j], #[trigger] after_rm[k]));
                if a == pos && b > pos + 1 {
                    lemma_lex_le_trans(x@, after_rm[pos as int], after_rm[b - 1]);
                }
            }
        }
        i = i + 1;
    }
    proof {
        assert(buf_views(v@).take(v@.len() as int) =~= buf_views(v@));
    }
}

} // verus!
