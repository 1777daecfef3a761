use ledger_comm::error::TransportError;
use ledger_comm::socket::{decode_frame, encode_frame, read_length};

#[test]
fn frame_layout() {
    assert_eq!(encode_frame(&[]).unwrap(), vec![0, 0, 0, 0]);
    assert_eq!(encode_frame(&[0xE0, 0x22, 0x00, 0x00, 0x00]).unwrap(), vec![0, 0, 0, 5, 0xE0, 0x22, 0x00, 0x00, 0x00]);
    let long = vec![0xAB; 0x1_0203];
    let f = encode_frame(&long).unwrap();
    assert_eq!(&f[..4], &[0x00, 0x01, 0x02, 0x03]);
    assert_eq!(f.len(), 4 + 0x1_0203);
}

#[test]
fn frame_round_trip() {
    for &len in &[0usize, 1, 255, 256, 0xFFFF, 0x1_0000] {
        let data: Vec<u8> = (0..len).map(|i| (i % 251) as u8).collect();
        let f = encode_frame(&data).unwrap();
        assert_eq!(decode_frame(&f).unwrap(), data, "length {}", len);
    }
}

#[test]
fn length_prefix_values() {
    assert_eq!(read_length(&[0, 0, 0, 0]), 0);
    assert_eq!(read_length(&[0, 0, 1, 0]), 256);
    assert_eq!(read_length(&[0x12, 0x34, 0x56, 0x78]), 0x1234_5678);
    assert_eq!(read_length(&[0xFF, 0xFF, 0xFF, 0xFF]), u32::MAX);
}

#[test]
fn frame_decoding_errors() {
    assert_eq!(decode_frame(&[0, 0, 0]), Err(TransportError::ShortRead));
    assert_eq!(decode_frame(&[0, 0, 0, 2, 7]), Err(TransportError::ShortRead));
    assert_eq!(decode_frame(&[0, 0, 0, 1, 7, 8]), Err(TransportError::ProtocolViolation));
}
