//! Relay session behaviour: request bodies, response folding, the read
//! buffer, and the session-id discipline.

use veracruz::error::VeracruzClientError;
use veracruz::relay::{
    decode_tls_message, parse_session_token, tokenize, u32_to_decimal, RelaySession,
};

#[test]
fn decimal_renders_and_parses() {
    assert_eq!(u32_to_decimal(0), b"0".to_vec());
    assert_eq!(u32_to_decimal(7), b"7".to_vec());
    assert_eq!(u32_to_decimal(4294967295), b"4294967295".to_vec());
    assert_eq!(parse_session_token(b"0"), Some(0));
    assert_eq!(parse_session_token(b"007"), Some(7));
    assert_eq!(parse_session_token(b"4294967295"), Some(4294967295));
    assert_eq!(parse_session_token(b"4294967296"), None);
    assert_eq!(parse_session_token(b""), None);
    assert_eq!(parse_session_token(b"12a"), None);
    assert_eq!(parse_session_token(b"-1"), None);
}

#[test]
fn tokenizer_splits_on_whitespace() {
    let toks = tokenize(b"  7 abc\tdef \r\nxyz ");
    let expected: Vec<Vec<u8>> =
        vec![b"7".to_vec(), b"abc".to_vec(), b"def".to_vec(), b"xyz".to_vec()];
    assert_eq!(toks, expected);
    assert_eq!(tokenize(b""), Vec::<Vec<u8>>::new());
    assert_eq!(tokenize(b" \t\r\n"), Vec::<Vec<u8>>::new());
}

#[test]
fn request_body_carries_id_and_record() {
    let session = RelaySession::new();
    assert_eq!(session.request_body(b"hello"), b"0 aGVsbG8=".to_vec());
}

#[test]
fn empty_response_changes_nothing() {
    let mut session = RelaySession::new();
    session.process_response(b"").unwrap();
    assert_eq!(session.session_id, 0);
    assert!(session.read_buffer.is_empty());
    session.process_response(b" \r\n\t").unwrap();
    assert_eq!(session.session_id, 0);
    assert!(session.read_buffer.is_empty());
}

#[test]
fn id_only_response_sets_id_and_nothing_else() {
    let mut session = RelaySession::new();
    session.process_response(b"7").unwrap();
    assert_eq!(session.session_id, 7);
    assert!(session.read_buffer.is_empty());
}

#[test]
fn first_response_assigns_id_and_buffers_records_in_order() {
    let mut session = RelaySession::new();
    let body = format!("7 {} {}", base64::encode(b"hel"), base64::encode(b"lo"));
    session.process_response(body.as_bytes()).unwrap();
    assert_eq!(session.session_id, 7);
    assert_eq!(session.read_buffer, b"hello".to_vec());
    assert_eq!(session.request_body(b"x"), b"7 eA==".to_vec());
}

#[test]
fn session_id_never_changes_once_assigned() {
    let mut session = RelaySession::new();
    session.process_response(b"7").unwrap();
    session.process_response(b"7").unwrap();
    assert_eq!(session.session_id, 7);
    let err = session.process_response(b"8").unwrap_err();
    assert_eq!(err, VeracruzClientError::SessionIdMismatch { assigned: 7, reported: 8 });
    assert_eq!(session.session_id, 7);
}

#[test]
fn zero_session_id_from_remote_is_refused() {
    let mut session = RelaySession::new();
    assert_eq!(session.process_response(b"0"), Err(VeracruzClientError::SessionIdZero));
    assert_eq!(session.session_id, 0);
}

#[test]
fn malformed_session_id_is_refused() {
    let mut session = RelaySession::new();
    assert_eq!(session.process_response(b"seven"), Err(VeracruzClientError::MalformedResponse));
    assert_eq!(session.session_id, 0);
}

#[test]
fn bad_base64_record_leaves_session_unchanged() {
    let mut session = RelaySession::new();
    session.process_response(b"7").unwrap();
    let err = session.process_response(b"7 %%%%").unwrap_err();
    assert_eq!(err, VeracruzClientError::Base64Error);
    assert_eq!(session.session_id, 7);
    assert!(session.read_buffer.is_empty());
}

#[test]
fn zero_length_read_is_a_no_op() {
    let mut session = RelaySession::new();
    session.process_response(format!("3 {}", base64::encode(b"abc")).as_bytes()).unwrap();
    let out = session.take_from_buffer(0);
    assert!(out.is_empty());
    assert_eq!(session.read_buffer, b"abc".to_vec());
}

#[test]
fn reads_drain_the_buffer_in_fifo_order() {
    let mut session = RelaySession::new();
    session.process_response(format!("3 {}", base64::encode(b"abcdef")).as_bytes()).unwrap();
    assert_eq!(session.take_from_buffer(2), b"ab".to_vec());
    assert_eq!(session.take_from_buffer(100), b"cdef".to_vec());
    assert_eq!(session.take_from_buffer(4), Vec::<u8>::new());
}

#[test]
fn tls_record_kinds_are_described() {
    assert_eq!(decode_tls_message(&[0x16, 0, 0, 0, 0, 0x01]), "Handshake: Client hello");
    assert_eq!(decode_tls_message(&[0x16, 0, 0, 0, 0, 0x14]), "Handshake: Finished");
    assert_eq!(decode_tls_message(&[0x14, 0, 0, 0, 0, 0]), "ChangeCipherSpec");
    assert_eq!(decode_tls_message(&[0x15, 0, 0, 0, 0, 0]), "Alert");
    assert_eq!(decode_tls_message(&[0x17, 0, 0, 0, 0, 0]), "ApplicationData");
    assert_eq!(decode_tls_message(&[0x99, 0, 0, 0, 0, 0]), "Unknown");
    assert_eq!(decode_tls_message(&[0x15]), "Alert");
    assert_eq!(decode_tls_message(&[0x17, 1]), "ApplicationData");
}

#[test]
fn hex_encodes_and_decodes() {
    assert_eq!(veracruz::hex::print_hex(&[]), "");
    assert_eq!(veracruz::hex::print_hex(&[0xbe, 0xef, 0x01]), "beef01");
    assert_eq!(veracruz::hex::hex_decode(b"beef01"), Some(vec![0xbe, 0xef, 0x01]));
    assert_eq!(veracruz::hex::hex_decode(b"BEeF01"), Some(vec![0xbe, 0xef, 0x01]));
    assert_eq!(veracruz::hex::hex_decode(b"abc"), None);
    assert_eq!(veracruz::hex::hex_decode(b"zz"), None);
}
