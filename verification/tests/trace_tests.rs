use fsbench::codec::BlkIOTrace;
use fsbench::codec::encode_record;
use fsbench::codec::CATEGORY_WRITE;
use fsbench::trace::Trace;

// Action codes as the kernel writes them.
const INSERT: u32 = 12;
const COMPLETE: u32 = 8;

fn record(sequence: u32, time: u64, action_code: u32, category_bits: u16, bytes: u32) -> Vec<u8> {
    let h = BlkIOTrace {
        magic: 0x65617407,
        sequence,
        time,
        sector: 0,
        bytes,
        action: ((category_bits as u32) << 16) | action_code,
        pid: 0,
        device: 0,
        cpu: 0,
        error: 0,
        pdu_len: 0,
    };
    encode_record(&h, &Vec::new())
}

#[test]
fn insert_then_complete_on_two_cpus() {
    // Two per-CPU buffers, each Insert(seq 1, t=100ns) then
    // Complete(seq 1, t=500ns, 4096 bytes, Write).  Only one matched pair
    // exists per sequence number at a time, so 400ns of I/O; both
    // completions carry Write bytes; one distinct sequence number.
    let mut cpu = record(1, 100, INSERT, 0, 0);
    cpu.extend_from_slice(&record(1, 500, COMPLETE, CATEGORY_WRITE, 4096));
    let trace = Trace::new(vec![cpu.clone(), cpu.clone()], 1_000_000);

    assert_eq!(trace.num_cpus(), 2);
    assert_eq!(trace.io_duration(), 400);
    assert_eq!(trace.completed_writes(), 2 * 4096);
    assert_eq!(trace.completed_reads(), 0);
    assert_eq!(trace.num_requests(), 1);
    assert!(trace.decode_complete());
}

#[test]
fn matched_pair_split_across_two_cpus() {
    // The Insert lands in one per-CPU buffer, its Complete in the other:
    // one matched pair, 400ns of I/O, 4096 completed write bytes, one
    // distinct sequence number.
    let first = record(1, 100, INSERT, 0, 0);
    let second = record(1, 500, COMPLETE, CATEGORY_WRITE, 4096);
    let trace = Trace::new(vec![first, second], 0);
    assert_eq!(trace.num_cpus(), 2);
    assert_eq!(trace.io_duration(), 400);
    assert_eq!(trace.completed_writes(), 4096);
    assert_eq!(trace.num_requests(), 1);
}

#[test]
fn insert_without_complete_contributes_nothing() {
    // Insert(seq 7) only: one request observed, no I/O time accumulated.
    let trace = Trace::new(vec![record(7, 100, INSERT, 0, 0)], 0);
    assert_eq!(trace.num_requests(), 1);
    assert_eq!(trace.io_duration(), 0);
}

#[test]
fn complete_without_insert_contributes_nothing() {
    let trace = Trace::new(vec![record(9, 800, COMPLETE, CATEGORY_WRITE, 4096)], 0);
    assert_eq!(trace.num_requests(), 1);
    assert_eq!(trace.io_duration(), 0);
    // The completed bytes still count toward the write total.
    assert_eq!(trace.completed_writes(), 4096);
}

#[test]
fn hundred_empty_buffers() {
    let trace = Trace::new(vec![Vec::new(); 100], 5);
    assert_eq!(trace.num_cpus(), 100);
    assert_eq!(trace.total_bytes(), 0);
    assert_eq!(trace.completed_reads(), 0);
    assert_eq!(trace.completed_writes(), 0);
    assert_eq!(trace.io_duration(), 0);
    assert_eq!(trace.num_requests(), 0);
    assert_eq!(trace.total_duration(), 5);
    assert!(trace.decode_complete());
}

#[test]
fn total_bytes_is_sum_of_buffers_regardless_of_decode() {
    // One decodable buffer, one garbage buffer that faults: the trace
    // volume still counts every supplied byte.
    let good = record(1, 10, INSERT, 0, 0);
    let garbage = vec![0xffu8; 100];
    let expected = good.len() + garbage.len();
    let trace = Trace::new(vec![good, garbage], 0);
    assert_eq!(trace.total_bytes(), expected);
    assert!(!trace.decode_complete());
}

#[test]
fn events_sort_by_time_across_buffers() {
    // The Insert lands in the second buffer with an earlier timestamp
    // than the Complete in the first; matching works only because events
    // are time-sorted across CPUs before the pass.
    let first = record(3, 900, COMPLETE, CATEGORY_WRITE, 512);
    let second = record(3, 100, INSERT, 0, 0);
    let trace = Trace::new(vec![first, second], 0);
    assert_eq!(trace.io_duration(), 800);
}

#[test]
fn repeated_queries_return_identical_results() {
    let mut cpu = record(1, 100, INSERT, 0, 0);
    cpu.extend_from_slice(&record(1, 500, COMPLETE, CATEGORY_WRITE, 4096));
    cpu.extend_from_slice(&record(2, 600, INSERT, 0, 0));
    let trace = Trace::new(vec![cpu, vec![0u8; 30]], 77);

    assert_eq!(trace.num_cpus(), trace.num_cpus());
    assert_eq!(trace.total_bytes(), trace.total_bytes());
    assert_eq!(trace.completed_reads(), trace.completed_reads());
    assert_eq!(trace.completed_writes(), trace.completed_writes());
    assert_eq!(trace.io_duration(), trace.io_duration());
    assert_eq!(trace.num_requests(), trace.num_requests());
    assert_eq!(trace.total_duration(), trace.total_duration());
    assert_eq!(trace.decode_complete(), trace.decode_complete());
}

#[test]
fn buffers_are_kept_as_supplied() {
    let a = vec![1u8, 2, 3];
    let b = vec![];
    let trace = Trace::new(vec![a.clone(), b.clone()], 0);
    assert_eq!(trace.buffer(0), &a);
    assert_eq!(trace.buffer(1), &b);
}

#[test]
fn overlapping_sequences_match_pairwise() {
    // seq 1: insert 100 / complete 400; seq 2: insert 200 / complete 700.
    let mut cpu = record(1, 100, INSERT, 0, 0);
    cpu.extend_from_slice(&record(2, 200, INSERT, 0, 0));
    cpu.extend_from_slice(&record(1, 400, COMPLETE, CATEGORY_WRITE, 512));
    cpu.extend_from_slice(&record(2, 700, COMPLETE, CATEGORY_WRITE, 512));
    let trace = Trace::new(vec![cpu], 0);
    assert_eq!(trace.io_duration(), 300 + 500);
    assert_eq!(trace.num_requests(), 2);
}
