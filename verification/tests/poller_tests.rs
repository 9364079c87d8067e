use fsbench::poller::append_chunk;
use fsbench::poller::new_capture_buffers;
use fsbench::poller::poller_cycle;
use fsbench::poller::ready_indices;
use fsbench::poller::PollerAction;
use fsbench::poller::PollOutcome;
use fsbench::poller::POLL_CYCLE_TIMEOUT_MS;
use fsbench::poller::READ_READY;

#[test]
fn cancellation_stops_the_next_cycle_without_draining() {
    // Flag set, no readiness ever firing: the poller exits at the next
    // cycle boundary, within one poll-cycle timeout, and the capture is
    // not partial.
    let idle = PollOutcome::Ready(vec![0, 0, 0]);
    match poller_cycle(true, &idle) {
        PollerAction::Stop { partial } => assert!(!partial),
        PollerAction::Drain { .. } => panic!("a cancelled poller must not drain"),
    }
    // Even a poll failure after cancellation stops as a clean exit.
    match poller_cycle(true, &PollOutcome::Failed) {
        PollerAction::Stop { partial } => assert!(!partial),
        PollerAction::Drain { .. } => panic!("a cancelled poller must not drain"),
    }
    assert_eq!(POLL_CYCLE_TIMEOUT_MS, 500);
}

#[test]
fn poll_failure_ends_the_capture_as_partial() {
    match poller_cycle(false, &PollOutcome::Failed) {
        PollerAction::Stop { partial } => assert!(partial),
        PollerAction::Drain { .. } => panic!("a failed poll must stop the poller"),
    }
}

#[test]
fn drains_exactly_the_ready_descriptors() {
    let revents = vec![READ_READY, 0, READ_READY | 0x0010, 0x0008, READ_READY];
    match poller_cycle(false, &PollOutcome::Ready(revents)) {
        PollerAction::Drain { indices } => assert_eq!(indices, vec![0, 2, 4]),
        PollerAction::Stop { .. } => panic!("a successful poll keeps the poller running"),
    }
}

#[test]
fn ready_indices_on_edge_cases() {
    assert_eq!(ready_indices(&Vec::new()), Vec::<usize>::new());
    assert_eq!(ready_indices(&vec![0, 0]), Vec::<usize>::new());
    assert_eq!(ready_indices(&vec![0xffff]), vec![0]);
}

#[test]
fn capture_buffers_start_empty() {
    let buffers = new_capture_buffers(4);
    assert_eq!(buffers.len(), 4);
    for b in &buffers {
        assert!(b.is_empty());
    }
}

#[test]
fn append_grows_only_the_addressed_buffer() {
    let mut buffers = new_capture_buffers(3);
    append_chunk(&mut buffers, 1, &vec![1, 2, 3]);
    append_chunk(&mut buffers, 1, &vec![4]);
    append_chunk(&mut buffers, 2, &vec![9]);
    assert_eq!(buffers[0], Vec::<u8>::new());
    assert_eq!(buffers[1], vec![1, 2, 3, 4]);
    assert_eq!(buffers[2], vec![9]);
}
