use hiverra_portal::errors::TransferError;
use hiverra_portal::frame::{read_frame, u32_from_be_bytes, u32_to_be_bytes, write_frame};

#[test]
fn frame_round_trip_lengths() {
    for n in [0usize, 1, 65535, 1_000_000] {
        let payload: Vec<u8> = (0..n).map(|i| (i % 251) as u8).collect();
        let mut out: Vec<u8> = Vec::new();
        write_frame(&mut out, &payload);
        assert_eq!(out.len(), 4 + n);
        let (got, next) = read_frame(&out, 0).expect("frame must read back");
        assert_eq!(got, payload);
        assert_eq!(next, out.len());
    }
}

#[test]
fn frame_prefix_is_big_endian() {
    let payload: Vec<u8> = vec![9u8; 0x0102];
    let mut out: Vec<u8> = Vec::new();
    write_frame(&mut out, &payload);
    assert_eq!(&out[0..4], &[0u8, 0, 1, 2]);
    assert_eq!(&out[4..], &payload[..]);
}

#[test]
fn frames_read_in_sequence() {
    let first: Vec<u8> = b"alpha".to_vec();
    let second: Vec<u8> = b"bet".to_vec();
    let mut out: Vec<u8> = Vec::new();
    write_frame(&mut out, &first);
    write_frame(&mut out, &second);
    let (got1, p1) = read_frame(&out, 0).unwrap();
    let (got2, p2) = read_frame(&out, p1).unwrap();
    assert_eq!(got1, first);
    assert_eq!(got2, second);
    assert_eq!(p2, out.len());
}

#[test]
fn short_frame_is_an_error_not_an_empty_message() {
    let empty: Vec<u8> = Vec::new();
    assert!(matches!(read_frame(&empty, 0), Err(TransferError::ShortRead)));

    let truncated_length: Vec<u8> = vec![0, 0, 1];
    assert!(matches!(read_frame(&truncated_length, 0), Err(TransferError::ShortRead)));

    let mut truncated_payload: Vec<u8> = Vec::new();
    write_frame(&mut truncated_payload, &vec![1u8, 2, 3, 4]);
    truncated_payload.pop();
    assert!(matches!(read_frame(&truncated_payload, 0), Err(TransferError::ShortRead)));
}

#[test]
fn u32_big_endian_bytes() {
    let bytes = u32_to_be_bytes(0x0102_0304);
    assert_eq!(bytes, vec![1u8, 2, 3, 4]);
    assert_eq!(u32_from_be_bytes(1, 2, 3, 4), 0x0102_0304);
    assert_eq!(u32_from_be_bytes(0xff, 0xff, 0xff, 0xff), u32::MAX);
}
