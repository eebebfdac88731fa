//! Client session checks, the data-plane gate, and the runtime-hash
//! verifier on real certificates.

use veracruz::client::{enforce_leading_slash, VeracruzClient};
use veracruz::codec::{decode_request, encode_response};
use veracruz::error::{Status, VeracruzClientError};
use veracruz::messages::{ResponsePayload, RuntimeManagerRequest, RuntimeManagerResponse};
use veracruz::policy::{Platform, Policy};
use veracruz::runtime_hash::{check_runtime_hash, compare_runtime_hash};

const CERT_WITH_EXTENSION: [u8; 406] = [48, 130, 1, 146, 48, 130, 1, 55, 160, 3, 2, 1, 2, 2, 20, 72, 92, 169, 17, 180, 180, 249, 82, 110, 5, 226, 174, 219, 141, 151, 11, 185, 19, 94, 134, 48, 10, 6, 8, 42, 134, 72, 206, 61, 4, 3, 2, 48, 23, 49, 21, 48, 19, 6, 3, 85, 4, 3, 12, 12, 116, 101, 115, 116, 45, 101, 110, 99, 108, 97, 118, 101, 48, 32, 23, 13, 50, 54, 49, 48, 48, 57, 48, 54, 53, 54, 51, 57, 90, 24, 15, 50, 49, 50, 54, 48, 57, 49, 53, 48, 54, 53, 54, 51, 57, 90, 48, 23, 49, 21, 48, 19, 6, 3, 85, 4, 3, 12, 12, 116, 101, 115, 116, 45, 101, 110, 99, 108, 97, 118, 101, 48, 89, 48, 19, 6, 7, 42, 134, 72, 206, 61, 2, 1, 6, 8, 42, 134, 72, 206, 61, 3, 1, 7, 3, 66, 0, 4, 140, 165, 154, 247, 38, 252, 37, 202, 198, 160, 88, 69, 187, 118, 125, 202, 74, 243, 239, 115, 114, 241, 166, 32, 107, 223, 184, 190, 103, 56, 55, 254, 196, 95, 51, 19, 205, 37, 145, 63, 34, 246, 200, 113, 168, 8, 200, 50, 144, 171, 25, 55, 215, 150, 70, 66, 141, 21, 31, 218, 49, 12, 162, 124, 163, 95, 48, 93, 48, 29, 6, 3, 85, 29, 14, 4, 22, 4, 20, 183, 238, 61, 229, 232, 186, 218, 171, 195, 19, 162, 249, 13, 202, 212, 255, 227, 177, 209, 61, 48, 31, 6, 3, 85, 29, 35, 4, 24, 48, 22, 128, 20, 183, 238, 61, 229, 232, 186, 218, 171, 195, 19, 162, 249, 13, 202, 212, 255, 227, 177, 209, 61, 48, 15, 6, 3, 85, 29, 19, 1, 1, 255, 4, 5, 48, 3, 1, 1, 255, 48, 10, 6, 3, 85, 30, 1, 4, 3, 1, 2, 3, 48, 10, 6, 8, 42, 134, 72, 206, 61, 4, 3, 2, 3, 73, 0, 48, 70, 2, 33, 0, 148, 250, 216, 1, 207, 62, 233, 26, 229, 33, 17, 141, 188, 199, 244, 161, 49, 163, 174, 148, 202, 240, 135, 84, 32, 236, 113, 132, 180, 165, 179, 250, 2, 33, 0, 130, 126, 203, 252, 220, 63, 125, 20, 76, 245, 190, 44, 155, 77, 79, 231, 196, 32, 36, 208, 49, 165, 214, 119, 45, 149, 240, 191, 6, 149, 21, 120];

const CERT_WITHOUT_EXTENSION: [u8; 389] = [48, 130, 1, 129, 48, 130, 1, 39, 160, 3, 2, 1, 2, 2, 20, 11, 53, 91, 229, 62, 229, 74, 136, 42, 84, 59, 78, 79, 138, 130, 67, 124, 193, 5, 221, 48, 10, 6, 8, 42, 134, 72, 206, 61, 4, 3, 2, 48, 21, 49, 19, 48, 17, 6, 3, 85, 4, 3, 12, 10, 116, 101, 115, 116, 45, 112, 108, 97, 105, 110, 48, 32, 23, 13, 50, 54, 49, 48, 48, 57, 48, 54, 53, 54, 51, 57, 90, 24, 15, 50, 49, 50, 54, 48, 57, 49, 53, 48, 54, 53, 54, 51, 57, 90, 48, 21, 49, 19, 48, 17, 6, 3, 85, 4, 3, 12, 10, 116, 101, 115, 116, 45, 112, 108, 97, 105, 110, 48, 89, 48, 19, 6, 7, 42, 134, 72, 206, 61, 2, 1, 6, 8, 42, 134, 72, 206, 61, 3, 1, 7, 3, 66, 0, 4, 88, 120, 20, 125, 135, 204, 82, 129, 203, 156, 94, 217, 33, 9, 228, 144, 55, 238, 226, 196, 98, 83, 59, 81, 93, 125, 68, 219, 49, 173, 35, 20, 240, 59, 186, 207, 131, 238, 96, 206, 132, 57, 160, 83, 194, 185, 13, 190, 178, 185, 93, 114, 217, 115, 90, 126, 137, 91, 72, 196, 237, 73, 80, 125, 163, 83, 48, 81, 48, 29, 6, 3, 85, 29, 14, 4, 22, 4, 20, 62, 139, 208, 253, 0, 110, 239, 45, 2, 125, 43, 141, 132, 189, 197, 154, 195, 21, 180, 86, 48, 31, 6, 3, 85, 29, 35, 4, 24, 48, 22, 128, 20, 62, 139, 208, 253, 0, 110, 239, 45, 2, 125, 43, 141, 132, 189, 197, 154, 195, 21, 180, 86, 48, 15, 6, 3, 85, 29, 19, 1, 1, 255, 4, 5, 48, 3, 1, 1, 255, 48, 10, 6, 8, 42, 134, 72, 206, 61, 4, 3, 2, 3, 72, 0, 48, 69, 2, 32, 33, 88, 198, 23, 121, 22, 131, 25, 123, 134, 240, 180, 68, 203, 98, 155, 62, 155, 127, 45, 138, 22, 44, 67, 44, 135, 55, 222, 145, 16, 167, 125, 2, 33, 0, 135, 208, 99, 23, 142, 127, 61, 236, 90, 1, 64, 182, 164, 179, 58, 243, 173, 215, 72, 19, 254, 105, 100, 28, 238, 229, 135, 78, 52, 212, 105, 218];

fn test_policy() -> Policy {
    Policy {
        server_url: "127.0.0.1:3011".to_string(),
        ciphersuite: "TLS1_2_ECDHE_RSA_WITH_CHACHA20_POLY1305_SHA256".to_string(),
        proxy_service_cert: "cert".to_string(),
        hash_linux: Some("aabbcc".to_string()),
        hash_nitro: Some("010203".to_string()),
        hash_icecap: None,
    }
}

fn checked_client() -> VeracruzClient {
    let mut c = VeracruzClient::with_policy_and_hash(test_policy(), "deadbeef".to_string());
    let reply = encode_response(&RuntimeManagerResponse {
        status: Status::Success,
        payload: Some(ResponsePayload::PolicyHash(b"deadbeef".to_vec())),
    });
    c.handle_policy_hash_response(&reply).unwrap();
    c.check_runtime_hash(&CERT_WITH_EXTENSION).unwrap();
    c
}

#[test]
fn paths_are_normalized_to_one_leading_slash() {
    assert_eq!(enforce_leading_slash("results/out.bin"), "/results/out.bin");
    assert_eq!(enforce_leading_slash("/results/out.bin"), "/results/out.bin");
    assert_eq!(enforce_leading_slash("///x"), "/x");
    assert_eq!(enforce_leading_slash(""), "/");
    assert_eq!(enforce_leading_slash("a//b"), "/a//b");
}

#[test]
fn data_plane_is_refused_before_the_checks() {
    let c = VeracruzClient::with_policy_and_hash(test_policy(), "deadbeef".to_string());
    assert_eq!(
        c.send_program_request("/p", b"x").unwrap_err(),
        VeracruzClientError::ChecksNotPerformed
    );
    assert_eq!(c.send_data_request("/d", b"x").unwrap_err(), VeracruzClientError::ChecksNotPerformed);
    assert_eq!(c.request_compute_request("/p").unwrap_err(), VeracruzClientError::ChecksNotPerformed);
    assert_eq!(c.get_results_request("/r").unwrap_err(), VeracruzClientError::ChecksNotPerformed);
}

#[test]
fn happy_path_builds_data_plane_requests() {
    let c = checked_client();
    let req = c.send_program_request("prog.wasm", b"wasm").unwrap();
    assert_eq!(
        decode_request(&req),
        Some(RuntimeManagerRequest::SendProgram("/prog.wasm".to_string(), b"wasm".to_vec()))
    );
    let req = c.request_compute_request("prog.wasm").unwrap();
    assert_eq!(decode_request(&req), Some(RuntimeManagerRequest::RequestCompute("/prog.wasm".to_string())));
}

#[test]
fn wire_path_of_get_results_is_normalized() {
    let c = checked_client();
    let req = c.get_results_request("results/out.bin").unwrap();
    assert_eq!(
        decode_request(&req),
        Some(RuntimeManagerRequest::ReadFile("/results/out.bin".to_string()))
    );
}

#[test]
fn policy_hash_mismatch_taints_the_client() {
    let mut c = VeracruzClient::with_policy_and_hash(test_policy(), "deadbeef".to_string());
    let reply = encode_response(&RuntimeManagerResponse {
        status: Status::Success,
        payload: Some(ResponsePayload::PolicyHash(b"0badf00d".to_vec())),
    });
    let err = c.handle_policy_hash_response(&reply).unwrap_err();
    match err {
        VeracruzClientError::MismatchError { variable, expected, received } => {
            assert_eq!(variable, "check_policy_hash");
            assert_eq!(expected, b"deadbeef".to_vec());
            assert_eq!(received, b"0badf00d".to_vec());
        }
        other => panic!("unexpected error: {:?}", other),
    }
    assert_eq!(c.send_data_request("/d", b"secret").unwrap_err(), VeracruzClientError::ChecksNotPerformed);
}

#[test]
fn failed_probe_status_taints_the_client() {
    let mut c = checked_client();
    let reply = encode_response(&RuntimeManagerResponse { status: Status::Fail, payload: None });
    let err = c.handle_policy_hash_response(&reply).unwrap_err();
    assert!(matches!(err, VeracruzClientError::ResponseError { .. }));
    assert_eq!(c.send_program_request("/p", b"x").unwrap_err(), VeracruzClientError::ChecksNotPerformed);
}

#[test]
fn runtime_hash_accepts_a_policy_approved_extension() {
    let policy = test_policy();
    assert_eq!(check_runtime_hash(&policy, &CERT_WITH_EXTENSION), Ok(()));
}

#[test]
fn runtime_hash_mismatch_is_fatal() {
    let mut policy = test_policy();
    policy.hash_nitro = Some("0405".to_string());
    policy.hash_linux = Some("aabbcc".to_string());
    assert_eq!(
        check_runtime_hash(&policy, &CERT_WITH_EXTENSION),
        Err(VeracruzClientError::NoMatchingRuntimeIsolateHash)
    );
}

#[test]
fn missing_extension_is_fatal_and_no_data_is_sent() {
    let mut c = VeracruzClient::with_policy_and_hash(test_policy(), "deadbeef".to_string());
    let reply = encode_response(&RuntimeManagerResponse {
        status: Status::Success,
        payload: Some(ResponsePayload::PolicyHash(b"deadbeef".to_vec())),
    });
    c.handle_policy_hash_response(&reply).unwrap();
    assert_eq!(
        c.check_runtime_hash(&CERT_WITHOUT_EXTENSION).unwrap_err(),
        VeracruzClientError::RuntimeHashExtensionMissing
    );
    assert_eq!(c.send_program_request("/p", b"secret").unwrap_err(), VeracruzClientError::ChecksNotPerformed);
}

#[test]
fn unparsable_certificate_is_fatal() {
    let policy = test_policy();
    assert_eq!(
        check_runtime_hash(&policy, b"not a certificate"),
        Err(VeracruzClientError::NoPeerCertificate)
    );
}

#[test]
fn compare_runtime_hash_checks_every_platform() {
    let policy = test_policy();
    assert_eq!(compare_runtime_hash(&policy, &[1, 2, 3]), Ok(()));
    assert_eq!(compare_runtime_hash(&policy, &[0xaa, 0xbb, 0xcc]), Ok(()));
    assert_eq!(
        compare_runtime_hash(&policy, &[9, 9]),
        Err(VeracruzClientError::NoMatchingRuntimeIsolateHash)
    );
}

#[test]
fn invalid_policy_hex_is_an_error() {
    let mut policy = test_policy();
    policy.hash_linux = Some("zz".to_string());
    assert_eq!(compare_runtime_hash(&policy, &[1, 2, 3]), Err(VeracruzClientError::HexError));
}

#[test]
fn shutdown_needs_no_checks() {
    let c = VeracruzClient::with_policy_and_hash(test_policy(), "deadbeef".to_string());
    let req = c.request_shutdown_request();
    assert_eq!(decode_request(&req), Some(RuntimeManagerRequest::RequestShutdown));
}

#[test]
fn upload_and_result_replies_are_interpreted() {
    let c = checked_client();
    let ok = encode_response(&RuntimeManagerResponse { status: Status::Success, payload: None });
    assert_eq!(c.handle_upload_response("send_program", &ok), Ok(()));
    let fail = encode_response(&RuntimeManagerResponse { status: Status::Fail, payload: None });
    assert!(matches!(
        c.handle_upload_response("send_program", &fail),
        Err(VeracruzClientError::ResponseError { .. })
    ));
    let with_result = encode_response(&RuntimeManagerResponse {
        status: Status::Success,
        payload: Some(ResponsePayload::ResultData(b"42".to_vec())),
    });
    assert_eq!(c.handle_result_response("get_results", &with_result), Ok(b"42".to_vec()));
    assert_eq!(
        c.handle_result_response("request_compute", &ok),
        Err(VeracruzClientError::NoResult)
    );
    assert_eq!(
        c.handle_result_response("get_results", b"junk"),
        Err(VeracruzClientError::MalformedResponse)
    );
}

#[test]
fn client_new_parses_and_fingerprints() {
    let text = r#"{
      "veracruz_server_url": "h:1",
      "ciphersuite": "TLS1_2_ECDHE_RSA_WITH_CHACHA20_POLY1305_SHA256",
      "proxy_service_cert": "c",
      "runtime_manager_hash_linux": "aa"
    }"#;
    let c = VeracruzClient::new(text).unwrap();
    assert_eq!(c.policy.server_url, "h:1");
    assert_eq!(c.policy_hash, veracruz::policy::policy_hash_hex(text));
    assert!(!c.policy_checked);
    assert!(!c.runtime_checked);
    assert_eq!(
        VeracruzClient::new("{}").unwrap_err(),
        VeracruzClientError::MalformedPolicy
    );
}

#[test]
fn certificate_validity_checks_key_and_expiry() {
    assert_eq!(VeracruzClient::check_certificate_validity(b"key", b"key", false), Ok(()));
    assert_eq!(
        VeracruzClient::check_certificate_validity(b"key", b"key", true),
        Err(VeracruzClientError::CertificateExpired)
    );
    match VeracruzClient::check_certificate_validity(b"keyA", b"keyB", false).unwrap_err() {
        VeracruzClientError::MismatchError { variable, expected, received } => {
            assert_eq!(variable, "public_key");
            assert_eq!(expected, b"keyA".to_vec());
            assert_eq!(received, b"keyB".to_vec());
        }
        other => panic!("unexpected error: {:?}", other),
    }
}

#[test]
fn platform_enum_is_usable() {
    let policy = test_policy();
    assert_eq!(policy.runtime_hash(Platform::IceCap), None);
    assert_eq!(policy.runtime_hash(Platform::Nitro).map(String::as_str), Some("010203"));
}
