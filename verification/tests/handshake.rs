use ignite_client::protocol::{HandshakeRequest, HandshakeResponse};
use ignite_client::wire::DecodeError;

#[test]
fn test_handshake_decode_success_flag() {
    let data: Vec<u8> = vec![0x01];
    assert!(matches!(HandshakeResponse::decode(&data), Ok(HandshakeResponse::Success)));
}

#[test]
fn test_handshake_decode_success_ignores_trailing_bytes() {
    let data: Vec<u8> = vec![0x01, 0xFF, 0xFF, 0x42];
    assert!(matches!(HandshakeResponse::decode(&data), Ok(HandshakeResponse::Success)));
}

#[test]
fn test_handshake_decode_failure() {
    let data: Vec<u8> = vec![0x00, 1, 0, 2, 0, 0, 0, b'b', b'a', b'd'];
    match HandshakeResponse::decode(&data).unwrap() {
        HandshakeResponse::Failure { major_version, minor_version, patch_version, error_message } => {
            assert_eq!(major_version, 1);
            assert_eq!(minor_version, 2);
            assert_eq!(patch_version, 0);
            assert_eq!(error_message, "bad");
        },
        _ => panic!("expected a failure"),
    }
}

#[test]
fn test_handshake_decode_empty_buffer() {
    let data: Vec<u8> = vec![];
    assert!(matches!(HandshakeResponse::decode(&data), Err(DecodeError::UnexpectedEnd)));
}

#[test]
fn test_handshake_decode_truncated_failure() {
    // failure flag but fewer than the 6 version bytes
    let data: Vec<u8> = vec![0x00, 1, 0, 2];
    assert!(matches!(HandshakeResponse::decode(&data), Err(DecodeError::UnexpectedEnd)));
}

#[test]
fn test_handshake_decode_invalid_utf8_message() {
    let data: Vec<u8> = vec![0x00, 1, 0, 2, 0, 0, 0, 0xFF, 0xFE];
    assert!(matches!(HandshakeResponse::decode(&data), Err(DecodeError::InvalidUtf8)));
}

#[test]
fn test_handshake_request_encode_exact_bytes() {
    let request = HandshakeRequest::new(1, 0, 0, String::new(), String::new());
    let encoded = request.encode();
    let expected: Vec<u8> = vec![
        16, 0, 0, 0, // payload length
        1, // op marker
        1, 0, // major
        0, 0, // minor
        0, 0, // patch
        2, // client type marker
        0, 0, 0, 0, // username length
        0, 0, 0, 0, // password length
    ];
    assert_eq!(encoded, expected);
    assert_eq!(request.length(), 16);
}

#[test]
fn test_handshake_request_round_trip_empty_credentials() {
    let request = HandshakeRequest::new(1, 0, 0, String::new(), String::new());
    let encoded = request.encode();
    let back = HandshakeRequest::decode(&encoded).unwrap();
    assert_eq!(back.major_version, 1);
    assert_eq!(back.minor_version, 0);
    assert_eq!(back.patch_version, 0);
    assert_eq!(back.username, "");
    assert_eq!(back.password, "");
}

#[test]
fn test_handshake_request_round_trip_with_credentials() {
    let request = HandshakeRequest::new(2, 15, 3, String::from("user"), String::from("secret"));
    let encoded = request.encode();
    assert_eq!(encoded.len() as i32, 4 + 16 + 4 + 6);
    let back = HandshakeRequest::decode(&encoded).unwrap();
    assert_eq!(back.major_version, 2);
    assert_eq!(back.minor_version, 15);
    assert_eq!(back.patch_version, 3);
    assert_eq!(back.username, "user");
    assert_eq!(back.password, "secret");
}

#[test]
fn test_handshake_request_decode_negative_length() {
    let request = HandshakeRequest::new(1, 0, 0, String::new(), String::new());
    let mut encoded = request.encode();
    // corrupt the username length to -1
    encoded[12] = 0xFF;
    encoded[13] = 0xFF;
    encoded[14] = 0xFF;
    encoded[15] = 0xFF;
    assert!(matches!(HandshakeRequest::decode(&encoded), Err(DecodeError::NegativeLength)));
}

#[test]
fn test_str_field_length() {
    assert_eq!(ignite_client::len::str("abc"), 8);
    assert_eq!(ignite_client::len::str(""), 5);
}
