use fsbench::codec::Action;
use fsbench::codec::BlkIOTrace;
use fsbench::codec::Category;
use fsbench::codec::DecodeError;
use fsbench::codec::Event;
use fsbench::codec::EventPDU;
use fsbench::codec::action_code;
use fsbench::codec::action_from_code;
use fsbench::codec::decode_buffer;
use fsbench::codec::decode_events;
use fsbench::codec::encode_header;
use fsbench::codec::encode_record;
use fsbench::codec::CATEGORY_READ;
use fsbench::codec::CATEGORY_WRITE;
use fsbench::codec::TRACE_HEADER_BYTES;

fn header(sequence: u32, time: u64, action_code: u32, category_bits: u16, bytes: u32, pdu_len: u16) -> BlkIOTrace {
    BlkIOTrace {
        magic: 0x65617407,
        sequence,
        time,
        sector: 4096,
        bytes,
        action: ((category_bits as u32) << 16) | action_code,
        pid: 42,
        device: 0x800010,
        cpu: 1,
        error: 0,
        pdu_len,
    }
}

#[test]
fn header_is_48_bytes() {
    let h = header(1, 100, 8, CATEGORY_WRITE, 4096, 0);
    let bytes = encode_header(&h);
    assert_eq!(bytes.len(), TRACE_HEADER_BYTES);
    // Spot-check the layout: little-endian sequence at offset 4, the
    // packed action word at 28, pdu_len at 46.
    assert_eq!(&bytes[4..8], &[1, 0, 0, 0]);
    assert_eq!(&bytes[28..32], &[8, 0, CATEGORY_WRITE as u8, 0]);
    assert_eq!(&bytes[46..48], &[0, 0]);
}

#[test]
fn action_codes_roundtrip() {
    for code in 0u32..=17 {
        let a = action_from_code(code).expect("code inside the enumeration");
        assert_eq!(action_code(a), code);
    }
    assert!(action_from_code(18).is_none());
    assert!(action_from_code(0xffff).is_none());
}

#[test]
fn category_contains_masks() {
    let c = Category::from_bits_truncate(CATEGORY_READ | CATEGORY_WRITE);
    assert!(c.contains(CATEGORY_READ));
    assert!(c.contains(CATEGORY_WRITE));
    assert!(c.contains(CATEGORY_READ | CATEGORY_WRITE));
    assert!(!c.contains(0x0004));
    assert!(Category::empty().contains(0));
}

#[test]
fn decode_empty_buffer_is_no_events_no_error() {
    let (events, fault) = decode_buffer(&Vec::new());
    assert!(events.is_empty());
    assert!(fault.is_none());
}

#[test]
fn decode_discards_final_run_shorter_than_header() {
    // 47 bytes: no complete header, silently discarded.
    let buf = vec![0xabu8; TRACE_HEADER_BYTES - 1];
    let (events, fault) = decode_buffer(&buf);
    assert!(events.is_empty());
    assert!(fault.is_none());

    // One full record then a 10-byte cut: the record decodes, the cut is
    // dropped.
    let mut buf = encode_record(&header(5, 50, 1, CATEGORY_READ, 512, 0), &Vec::new());
    buf.extend_from_slice(&[0u8; 10]);
    let (events, fault) = decode_buffer(&buf);
    assert_eq!(events.len(), 1);
    assert!(fault.is_none());
    assert_eq!(events[0].sequence, 5);
}

#[test]
fn decode_single_record_fields() {
    let pdu = vec![9u8, 8, 7];
    let buf = encode_record(&header(7, 123456789, 12, CATEGORY_READ | 0x0008, 8192, 3), &pdu);
    let events = decode_events(&buf).expect("clean decode");
    assert_eq!(events.len(), 1);
    let e = &events[0];
    assert_eq!(e.sequence, 7);
    assert_eq!(e.time, 123456789);
    assert_eq!(e.sector, 4096);
    assert_eq!(e.bytes, 8192);
    assert_eq!(e.action, Action::Insert);
    assert_eq!(e.category, Category::from_bits_truncate(CATEGORY_READ | 0x0008));
    assert_eq!(e.pid, 42);
    assert_eq!(e.device, 0x800010);
    assert_eq!(e.cpu, 1);
    assert_eq!(e.error, 0);
    assert_eq!(e.pdu.as_ref().expect("payload present").data, pdu);
}

#[test]
fn roundtrip_record_sequence_with_payloads() {
    // A synthetic header+payload sequence with payload lengths from empty
    // through 60000 decodes back field for field.
    let payload_lens = [0usize, 1, 2, 57, 4096, 60000];
    let mut buf: Vec<u8> = Vec::new();
    let mut expected: Vec<Event> = Vec::new();
    for (i, &n) in payload_lens.iter().enumerate() {
        let pdu: Vec<u8> = (0..n).map(|j| (i + j) as u8).collect();
        let h = header(i as u32, 1000 + i as u64, (i % 18) as u32, 1 << (i % 16), 512, n as u16);
        buf.extend_from_slice(&encode_record(&h, &pdu));
        expected.push(Event {
            sequence: i as u32,
            time: 1000 + i as u64,
            sector: 4096,
            bytes: 512,
            action: action_from_code((i % 18) as u32).unwrap(),
            category: Category::from_bits_truncate(1 << (i % 16)),
            pid: 42,
            device: 0x800010,
            cpu: 1,
            error: 0,
            pdu: if n > 0 { Some(EventPDU { data: pdu }) } else { None },
        });
    }
    let events = decode_events(&buf).expect("clean decode");
    assert_eq!(events.len(), expected.len());
    for (got, want) in events.iter().zip(expected.iter()) {
        assert!(got == want);
    }
}

#[test]
fn event_encode_matches_encode_record() {
    let pdu = vec![1u8, 2, 3, 4];
    let h = header(9, 77, 8, CATEGORY_WRITE, 2048, 4);
    let by_record = encode_record(&h, &pdu);
    let event = &decode_events(&by_record).unwrap()[0];
    let by_event = event.encode(h.magic);
    assert_eq!(by_event, by_record);
}

#[test]
fn bad_action_code_is_a_decode_fault() {
    // Low half 18 falls outside the closed enumeration.
    let good = encode_record(&header(1, 10, 8, CATEGORY_WRITE, 512, 0), &Vec::new());
    let bad = encode_record(&header(2, 20, 18, 0, 512, 0), &Vec::new());
    let mut buf = good.clone();
    buf.extend_from_slice(&bad);

    let (events, fault) = decode_buffer(&buf);
    assert_eq!(events.len(), 1);
    assert_eq!(fault, Some(DecodeError::BadAction { code: 18 }));

    match decode_events(&buf) {
        Err(DecodeError::BadAction { code }) => assert_eq!(code, 18),
        other => panic!("expected a bad-action fault, got {:?}", other),
    }
}

#[test]
fn pdu_overrun_is_a_decode_fault() {
    // The header claims 100 payload bytes; only 3 follow.
    let mut buf = encode_header(&header(1, 10, 1, 0, 0, 100));
    buf.extend_from_slice(&[1, 2, 3]);
    let (events, fault) = decode_buffer(&buf);
    assert!(events.is_empty());
    assert_eq!(fault, Some(DecodeError::PduOverrun { pdu_len: 100 }));
}

#[test]
fn event_from_raw_splits_packed_action_field() {
    let h = header(3, 30, 8, CATEGORY_READ, 1024, 0);
    let e = Event::from_raw(&h, &Vec::new());
    assert_eq!(e.action, Action::Complete);
    assert_eq!(e.category.bits, CATEGORY_READ);
    assert!(e.pdu.is_none());
}
