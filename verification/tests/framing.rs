use ignite_client::frame::{decode_frame, encode_frame, frame_header_length};
use ignite_client::wire::DecodeError;

#[test]
fn test_frame_round_trip() {
    let payload: Vec<u8> = vec![1, 2, 3, 4, 5];
    let framed = encode_frame(&payload);
    assert_eq!(&framed[..4], &[5, 0, 0, 0]);
    assert_eq!(&framed[4..], &payload[..]);
    let back = decode_frame(&framed).unwrap();
    assert_eq!(back, payload);
}

#[test]
fn test_frame_round_trip_empty_payload() {
    let payload: Vec<u8> = vec![];
    let framed = encode_frame(&payload);
    assert_eq!(framed, vec![0, 0, 0, 0]);
    let back = decode_frame(&framed).unwrap();
    assert_eq!(back, payload);
}

#[test]
fn test_frame_header_length() {
    let header: Vec<u8> = vec![0x10, 0x02, 0, 0];
    assert_eq!(frame_header_length(&header), 0x0210);
}

#[test]
fn test_decode_frame_short_header() {
    let data: Vec<u8> = vec![1, 0, 0];
    assert_eq!(decode_frame(&data), Err(DecodeError::UnexpectedEnd));
}

#[test]
fn test_decode_frame_truncated_payload() {
    // declares 4 payload bytes but holds only 2
    let data: Vec<u8> = vec![4, 0, 0, 0, 9, 9];
    assert_eq!(decode_frame(&data), Err(DecodeError::UnexpectedEnd));
}

#[test]
fn test_decode_frame_ignores_trailing_bytes() {
    let data: Vec<u8> = vec![2, 0, 0, 0, 7, 8, 99, 100];
    assert_eq!(decode_frame(&data).unwrap(), vec![7, 8]);
}
