use fsbench::session::BlktraceConfig;
use fsbench::session::decode_setup;
use fsbench::session::device_name_bytes;
use fsbench::session::encode_setup;
use fsbench::session::filter_trace_names;
use fsbench::session::is_trace_file_name;
use fsbench::session::lex_le_bytes;
use fsbench::session::sort_trace_paths;
use fsbench::session::SetupRetry;
use fsbench::session::MAX_SETUP_ATTEMPTS;
use fsbench::session::SETUP_REQUEST_BYTES;

#[test]
fn default_config_values() {
    let c = BlktraceConfig::default();
    let s = c.setup_request();
    assert_eq!(s.buf_size, 1024 * 512);
    assert_eq!(s.buf_nr, 4);
    assert_eq!(s.act_mask, 0xffff);
    assert_eq!(s.name, vec![0u8; 32]);
    assert_eq!(s.start_lba, 0);
    assert_eq!(s.end_lba, 0);
    assert_eq!(s.pid, 0);
}

#[test]
fn config_setters_replace_one_field() {
    let c = BlktraceConfig::default()
        .set_trace_mask(0x0003)
        .set_buffer_size(4096)
        .set_buffer_subbuffers(8);
    let s = c.setup_request();
    assert_eq!(s.act_mask, 0x0003);
    assert_eq!(s.buf_size, 4096);
    assert_eq!(s.buf_nr, 8);
}

#[test]
fn setup_request_marshals_byte_for_byte() {
    let c = BlktraceConfig::default()
        .set_trace_mask(0xabcd)
        .set_buffer_size(0x11223344)
        .set_buffer_subbuffers(0x55667788);
    let bytes = encode_setup(&c.setup_request());
    assert_eq!(bytes.len(), SETUP_REQUEST_BYTES);
    assert_eq!(&bytes[0..32], &[0u8; 32]);
    assert_eq!(&bytes[32..34], &[0xcd, 0xab]);
    assert_eq!(&bytes[34..36], &[0, 0]); // padding after the 16-bit mask
    assert_eq!(&bytes[36..40], &[0x44, 0x33, 0x22, 0x11]);
    assert_eq!(&bytes[40..44], &[0x88, 0x77, 0x66, 0x55]);
    assert_eq!(&bytes[44..48], &[0, 0, 0, 0]); // padding before the LBAs
    assert_eq!(&bytes[48..68], &[0u8; 20]); // LBA bounds and pid, all zero
    assert_eq!(&bytes[68..72], &[0, 0, 0, 0]); // trailing padding
}

#[test]
fn setup_request_roundtrips_through_bytes() {
    let mut s = BlktraceConfig::default().set_trace_mask(0x1234).setup_request();
    s.start_lba = 7;
    s.end_lba = 0xdeadbeef00112233;
    s.pid = 4242;
    // Pretend the kernel filled in a short device name.
    s.name[0] = b's';
    s.name[1] = b'd';
    s.name[2] = b'a';
    let bytes = encode_setup(&s);
    let back = decode_setup(&bytes).expect("size matches");
    assert_eq!(back.name, s.name);
    assert_eq!(back.act_mask, s.act_mask);
    assert_eq!(back.buf_size, s.buf_size);
    assert_eq!(back.buf_nr, s.buf_nr);
    assert_eq!(back.start_lba, s.start_lba);
    assert_eq!(back.end_lba, s.end_lba);
    assert_eq!(back.pid, s.pid);
}

#[test]
fn decode_setup_rejects_wrong_size() {
    assert!(decode_setup(&vec![0u8; SETUP_REQUEST_BYTES - 1]).is_none());
    assert!(decode_setup(&vec![0u8; SETUP_REQUEST_BYTES + 1]).is_none());
    assert!(decode_setup(&Vec::new()).is_none());
}

#[test]
fn setup_rejected_on_every_attempt_gives_up_after_ten() {
    let mut retry = SetupRetry::new();
    let mut attempts = 0u32;
    while retry.should_attempt() {
        // Simulated SETUP rejection.
        retry.record(false);
        attempts += 1;
        assert!(attempts <= MAX_SETUP_ATTEMPTS, "never more than the bound");
    }
    assert_eq!(attempts, 10);
    assert_eq!(retry.attempts_made(), 10);
    assert!(retry.gave_up());
    assert!(!retry.succeeded());
}

#[test]
fn setup_success_stops_retrying() {
    let mut retry = SetupRetry::new();
    retry.record(false);
    retry.record(false);
    retry.record(true);
    assert!(retry.succeeded());
    assert!(!retry.should_attempt());
    assert_eq!(retry.attempts_made(), 3);
}

#[test]
fn device_name_stops_at_first_nul() {
    let mut name = vec![0u8; 32];
    name[0] = b's';
    name[1] = b'd';
    name[2] = b'b';
    assert_eq!(device_name_bytes(&name), b"sdb".to_vec());

    // No NUL at all: every byte belongs to the name.
    let full = vec![b'x'; 32];
    assert_eq!(device_name_bytes(&full), full);

    // NUL first: empty name.
    assert_eq!(device_name_bytes(&vec![0u8; 32]), Vec::<u8>::new());
}

#[test]
fn trace_file_names_need_prefix_and_cpu_digit() {
    assert!(is_trace_file_name(&b"trace0".to_vec()));
    assert!(is_trace_file_name(&b"trace12".to_vec()));
    assert!(!is_trace_file_name(&b"trace".to_vec())); // no CPU number
    assert!(!is_trace_file_name(&b"dropped".to_vec()));
    assert!(!is_trace_file_name(&b"msg0".to_vec()));
    assert!(!is_trace_file_name(&Vec::new()));
}

#[test]
fn filter_keeps_only_trace_files_in_order() {
    let names = vec![
        b"trace1".to_vec(),
        b"dropped".to_vec(),
        b"trace0".to_vec(),
        b"msg".to_vec(),
        b"trace10".to_vec(),
    ];
    let kept = filter_trace_names(&names);
    assert_eq!(kept, vec![b"trace1".to_vec(), b"trace0".to_vec(), b"trace10".to_vec()]);
}

#[test]
fn lex_order_on_names() {
    assert!(lex_le_bytes(&b"trace0".to_vec(), &b"trace1".to_vec()));
    assert!(!lex_le_bytes(&b"trace1".to_vec(), &b"trace0".to_vec()));
    assert!(lex_le_bytes(&b"trace1".to_vec(), &b"trace1".to_vec()));
    // Shorter prefix sorts first; "trace10" sorts before "trace2".
    assert!(lex_le_bytes(&b"trace".to_vec(), &b"trace0".to_vec()));
    assert!(lex_le_bytes(&b"trace10".to_vec(), &b"trace2".to_vec()));
}

#[test]
fn trace_paths_sort_deterministically() {
    let mut paths = vec![
        b"trace2".to_vec(),
        b"trace0".to_vec(),
        b"trace11".to_vec(),
        b"trace1".to_vec(),
    ];
    sort_trace_paths(&mut paths);
    assert_eq!(
        paths,
        vec![b"trace0".to_vec(), b"trace1".to_vec(), b"trace11".to_vec(), b"trace2".to_vec()]
    );
}
