use ledger_comm::error::TransportError;
use ledger_comm::hid::{decode_reports, encode_reports, flushed_payload_bytes, is_apdu_interface, Reassembler};

fn message(len: usize) -> Vec<u8> {
    (0..len).map(|i| (i * 7 + 3) as u8).collect()
}

/// The reports as the device side reads them: without the report-ID byte.
fn as_read(reports: &[Vec<u8>]) -> Vec<Vec<u8>> {
    reports.iter().map(|r| r[1..].to_vec()).collect()
}

#[test]
fn interface_selection() {
    assert!(is_apdu_interface(0x2C97, 0, 0x0001));
    assert!(is_apdu_interface(0x2C97, 3, 0xFFA0));
    assert!(!is_apdu_interface(0x2C97, 1, 0x0001));
    assert!(!is_apdu_interface(0x1234, 0, 0xFFA0));
}

#[test]
fn empty_message_is_one_report() {
    let reports = encode_reports(&[]).unwrap();
    assert_eq!(reports.len(), 1);
    let mut expected = vec![0x00, 0x01, 0x01, 0x05, 0x00, 0x00, 0x00, 0x00];
    expected.resize(65, 0);
    assert_eq!(reports[0], expected);
}

#[test]
fn short_apdu_report_layout() {
    let apdu = [0xE0, 0x22, 0x00, 0x00, 0x00];
    let reports = encode_reports(&apdu).unwrap();
    assert_eq!(reports.len(), 1);
    assert_eq!(&reports[0][..13], &[0x00, 0x01, 0x01, 0x05, 0x00, 0x00, 0x00, 0x05, 0xE0, 0x22, 0x00, 0x00, 0x00]);
    assert!(reports[0][13..].iter().all(|&b| b == 0));
    assert_eq!(reports[0].len(), 65);
}

#[test]
fn report_count_and_sequence_indices() {
    for &(len, count) in &[(0usize, 1usize), (57, 1), (58, 2), (116, 2), (117, 3), (150, 3), (4096, 70)] {
        let reports = encode_reports(&message(len)).unwrap();
        assert_eq!(reports.len(), count, "length {}", len);
        assert_eq!(reports.len(), (len + 2 + 58) / 59);
        for (i, r) in reports.iter().enumerate() {
            assert_eq!(r.len(), 65);
            assert_eq!(&r[..4], &[0x00, 0x01, 0x01, 0x05]);
            assert_eq!(r[4] as usize * 256 + r[5] as usize, i);
        }
    }
}

#[test]
fn continuation_report_carries_next_slice() {
    let data = message(100);
    let reports = encode_reports(&data).unwrap();
    assert_eq!(reports.len(), 2);
    assert_eq!(&reports[0][6..8], &[0x00, 100]);
    assert_eq!(&reports[0][8..65], &data[..57]);
    assert_eq!(&reports[1][6..6 + 43], &data[57..]);
    assert!(reports[1][6 + 43..].iter().all(|&b| b == 0));
}

#[test]
fn too_long_message_is_refused() {
    assert_eq!(encode_reports(&message(0x1_0000)), Err(TransportError::PayloadTooLong));
    assert_eq!(encode_reports(&message(0xFFFF)).unwrap().len(), (0xFFFF + 2 + 58) / 59);
}

#[test]
fn flushed_bytes_after_failed_write() {
    assert_eq!(flushed_payload_bytes(150, 0), 0);
    assert_eq!(flushed_payload_bytes(150, 1), 57);
    assert_eq!(flushed_payload_bytes(150, 2), 116);
    assert_eq!(flushed_payload_bytes(150, 3), 150);
    assert_eq!(flushed_payload_bytes(10, 1), 10);
}

#[test]
fn round_trip_through_reports() {
    for &len in &[0usize, 1, 55, 56, 57, 114, 115, 1000, 4096, 0xFFFD] {
        let body = message(len);
        let mut sent = body.clone();
        sent.extend_from_slice(&[0x90, 0x00]);
        let reports = encode_reports(&sent).unwrap();
        let (got, sw) = decode_reports(&as_read(&reports)).unwrap();
        assert_eq!(got, body, "length {}", len);
        assert_eq!(sw, [0x90, 0x00]);
    }
}

#[test]
fn status_word_keeps_its_order() {
    let reports = encode_reports(&[0xAA, 0x6A, 0x82]).unwrap();
    assert_eq!(decode_reports(&as_read(&reports)), Ok((vec![0xAA], [0x6A, 0x82])));
}

#[test]
fn continuation_payload_split_arbitrarily() {
    let payload: Vec<u8> = (0..70u8).collect();
    let header = [0x01, 0x01, 0x05, 0x00, 0x00];
    let mut first = header.to_vec();
    first.extend_from_slice(&[0x00, 70]);
    first.extend_from_slice(&payload[..10]);
    let mut reports = vec![first];
    for piece in [&payload[10..13], &payload[13..13], &payload[13..50], &payload[50..70]] {
        let mut r = header.to_vec();
        r.extend_from_slice(piece);
        reports.push(r);
    }
    let (body, sw) = decode_reports(&reports).unwrap();
    assert_eq!(body, payload[..68].to_vec());
    assert_eq!(sw, [68, 69]);
}

#[test]
fn reassembly_errors() {
    assert_eq!(decode_reports(&vec![]), Err(TransportError::ShortRead));
    assert_eq!(decode_reports(&vec![vec![1, 1, 5, 0, 0, 0]]), Err(TransportError::ProtocolViolation));
    assert_eq!(decode_reports(&vec![vec![1, 1, 5, 0, 0, 0, 1, 0x90]]), Err(TransportError::ProtocolViolation));
    let mut first = vec![1, 1, 5, 0, 0, 0, 100];
    first.extend_from_slice(&[0u8; 57]);
    assert_eq!(decode_reports(&vec![first]), Err(TransportError::ShortRead));
}

#[test]
fn reassembler_step_by_step() {
    let mut r = Reassembler::new();
    assert!(!r.is_complete());
    let mut first = vec![1, 1, 5, 0, 0, 0, 60];
    first.extend((0..57u8).map(|b| b + 1));
    assert_eq!(r.push_report(&first), Ok(()));
    assert!(!r.is_complete());
    let mut next = vec![1, 1, 5, 0, 1];
    next.extend_from_slice(&[58, 0x90, 0x00]);
    next.resize(64, 0xEE);
    assert_eq!(r.push_report(&next), Ok(()));
    assert!(r.is_complete());
    let (body, sw) = r.finish();
    let expected: Vec<u8> = (1..=58u8).collect();
    assert_eq!(body, expected);
    assert_eq!(sw, [0x90, 0x00]);
}
