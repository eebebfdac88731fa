//! Round-trip and framing behaviour of the wire codec.

use veracruz::codec::{
    decode_chunks, decode_request, decode_response, decode_root_message, encode_chunks,
    encode_request, encode_response, encode_root_message, frame_message, unframe_message,
};
use veracruz::error::Status;
use veracruz::messages::{
    NitroRootEnclaveMessage, ResponsePayload, RuntimeManagerRequest, RuntimeManagerResponse,
};

fn root_samples() -> Vec<NitroRootEnclaveMessage> {
    vec![
        NitroRootEnclaveMessage::Status(Status::Fail),
        NitroRootEnclaveMessage::Status(Status::Unimplemented),
        NitroRootEnclaveMessage::FetchFirmwareVersion,
        NitroRootEnclaveMessage::FirmwareVersion("0.3.0".to_string()),
        NitroRootEnclaveMessage::SetCertChain(vec![1, 2], vec![3]),
        NitroRootEnclaveMessage::NativeAttestation(vec![0; 16], -7),
        NitroRootEnclaveMessage::TokenData(vec![9, 8, 7], vec![]),
        NitroRootEnclaveMessage::StartProxy,
        NitroRootEnclaveMessage::ChallengeData(vec![255; 16], 41),
        NitroRootEnclaveMessage::ProxyAttestation(vec![5], 41),
        NitroRootEnclaveMessage::CertChain(vec![vec![1], vec![], vec![2, 3]]),
        NitroRootEnclaveMessage::Success,
    ]
}

#[test]
fn root_codec_round_trips_every_variant() {
    for msg in root_samples() {
        let bytes = encode_root_message(&msg);
        let back = decode_root_message(&bytes).expect("encoded message must decode");
        assert_eq!(back, msg);
    }
}

#[test]
fn root_codec_rejects_trailing_bytes() {
    let mut bytes = encode_root_message(&NitroRootEnclaveMessage::Success);
    bytes.push(0);
    assert_eq!(decode_root_message(&bytes), None);
}

#[test]
fn root_codec_rejects_truncation() {
    let bytes = encode_root_message(&NitroRootEnclaveMessage::FirmwareVersion("abc".to_string()));
    assert_eq!(decode_root_message(&bytes[..bytes.len() - 1]), None);
}

#[test]
fn root_codec_distinct_messages_distinct_bytes() {
    let a = encode_root_message(&NitroRootEnclaveMessage::StartProxy);
    let b = encode_root_message(&NitroRootEnclaveMessage::Success);
    let c = encode_root_message(&NitroRootEnclaveMessage::SetCertChain(vec![1], vec![2]));
    let d = encode_root_message(&NitroRootEnclaveMessage::SetCertChain(vec![], vec![1, 2]));
    assert_ne!(a, b);
    assert_ne!(c, d);
}

#[test]
fn request_codec_round_trips_every_variant() {
    let samples = vec![
        RuntimeManagerRequest::RequestPolicyHash,
        RuntimeManagerRequest::SendProgram("/prog.wasm".to_string(), vec![0, 97, 115, 109]),
        RuntimeManagerRequest::SendData("/input-0".to_string(), vec![]),
        RuntimeManagerRequest::RequestCompute("/prog.wasm".to_string()),
        RuntimeManagerRequest::ReadFile("/results/out.bin".to_string()),
        RuntimeManagerRequest::RequestShutdown,
    ];
    for msg in samples {
        let bytes = encode_request(&msg);
        let back = decode_request(&bytes).expect("encoded request must decode");
        assert_eq!(back, msg);
    }
}

#[test]
fn request_codec_keeps_unicode_paths() {
    let msg = RuntimeManagerRequest::RequestCompute("/π/ファイル".to_string());
    let bytes = encode_request(&msg);
    assert_eq!(decode_request(&bytes), Some(msg));
}

#[test]
fn response_codec_round_trips_every_variant() {
    let samples = vec![
        RuntimeManagerResponse { status: Status::Success, payload: None },
        RuntimeManagerResponse { status: Status::Fail, payload: None },
        RuntimeManagerResponse { status: Status::Unimplemented, payload: None },
        RuntimeManagerResponse {
            status: Status::Success,
            payload: Some(ResponsePayload::PolicyHash(vec![97, 98, 99])),
        },
        RuntimeManagerResponse {
            status: Status::Success,
            payload: Some(ResponsePayload::ResultData(vec![1, 2, 3, 4])),
        },
    ];
    for msg in samples {
        let bytes = encode_response(&msg);
        let back = decode_response(&bytes).expect("encoded response must decode");
        assert_eq!(back, msg);
    }
}

#[test]
fn garbage_does_not_decode() {
    assert_eq!(decode_root_message(&[]), None);
    assert_eq!(decode_request(&[1, 2, 3]), None);
    assert_eq!(decode_response(&[255; 40]), None);
}

#[test]
fn chunk_list_round_trips() {
    let chunks: Vec<Vec<u8>> = vec![vec![], vec![42], vec![0; 300]];
    let bytes = encode_chunks(&chunks);
    assert_eq!(decode_chunks(&bytes), Some(chunks));
}

#[test]
fn frame_round_trips() {
    let payload = b"a framed transport message".to_vec();
    let framed = frame_message(&payload);
    assert_eq!(framed.len(), payload.len() + 8);
    assert_eq!(&framed[..8], &(payload.len() as u64).to_le_bytes());
    assert_eq!(unframe_message(&framed), Some(payload));
}

#[test]
fn unframe_rejects_bad_frames() {
    let framed = frame_message(&[1, 2, 3]);
    assert_eq!(unframe_message(&framed[..framed.len() - 1]), None);
    let mut long = framed.clone();
    long.push(0);
    assert_eq!(unframe_message(&long), None);
    assert_eq!(unframe_message(&[1, 2, 3]), None);
    let huge_length = u64::MAX.to_le_bytes().to_vec();
    assert_eq!(unframe_message(&huge_length), None);
}
