//! The root-enclave provisioning state machine and the attestation
//! routing decisions.

use veracruz::enclave::{RootEnclave, RootEnclavePhase};
use veracruz::error::Status;
use veracruz::messages::NitroRootEnclaveMessage;
use veracruz::router::{nitro_route, psa_route, RouteOutcome};

#[test]
fn provisioning_walks_to_ready() {
    let mut e = RootEnclave::new("0.3.0".to_string());
    assert_eq!(e.phase, RootEnclavePhase::Unprovisioned);

    let r = e.handle_native_attestation(42, b"token".to_vec(), b"csr".to_vec());
    assert_eq!(r, NitroRootEnclaveMessage::TokenData(b"token".to_vec(), b"csr".to_vec()));
    assert_eq!(e.phase, RootEnclavePhase::Attested);
    assert_eq!(e.device_id, 42);

    let r = e.handle_start_proxy(vec![7; 16], 99);
    assert_eq!(r, NitroRootEnclaveMessage::ChallengeData(vec![7; 16], 99));
    assert_eq!(e.phase, RootEnclavePhase::Challenged);

    let chain = vec![b"leaf".to_vec(), b"root".to_vec()];
    let r = e.handle_proxy_attestation(99, chain.clone());
    assert_eq!(r, NitroRootEnclaveMessage::CertChain(chain));
    assert_eq!(e.phase, RootEnclavePhase::Certified);

    let r = e.handle_set_cert_chain(b"rc".to_vec(), b"cc".to_vec());
    assert_eq!(r, NitroRootEnclaveMessage::Success);
    assert_eq!(e.phase, RootEnclavePhase::Ready);
    assert_eq!(e.cert_chain, Some((b"rc".to_vec(), b"cc".to_vec())));
}

#[test]
fn out_of_order_messages_fail() {
    let mut e = RootEnclave::new("0.3.0".to_string());
    assert_eq!(e.handle_start_proxy(vec![1; 16], 1), NitroRootEnclaveMessage::Status(Status::Fail));
    assert_eq!(
        e.handle_proxy_attestation(1, vec![]),
        NitroRootEnclaveMessage::Status(Status::Fail)
    );
    assert_eq!(
        e.handle_set_cert_chain(vec![], vec![]),
        NitroRootEnclaveMessage::Status(Status::Fail)
    );
    assert_eq!(e.phase, RootEnclavePhase::Unprovisioned);

    e.handle_native_attestation(1, vec![], vec![]);
    assert_eq!(
        e.handle_native_attestation(2, vec![], vec![]),
        NitroRootEnclaveMessage::Status(Status::Fail)
    );
}

#[test]
fn challenge_ids_are_consumed_exactly_once() {
    let mut e = RootEnclave::new("0.3.0".to_string());
    e.handle_native_attestation(1, vec![], vec![]);
    e.handle_start_proxy(vec![7; 16], 5);
    assert!(matches!(e.handle_proxy_attestation(5, vec![]), NitroRootEnclaveMessage::CertChain(_)));
    assert_eq!(
        e.handle_proxy_attestation(5, vec![]),
        NitroRootEnclaveMessage::Status(Status::Fail)
    );
}

#[test]
fn unknown_challenge_id_fails() {
    let mut e = RootEnclave::new("0.3.0".to_string());
    e.handle_native_attestation(1, vec![], vec![]);
    e.handle_start_proxy(vec![7; 16], 5);
    assert_eq!(
        e.handle_proxy_attestation(6, vec![]),
        NitroRootEnclaveMessage::Status(Status::Fail)
    );
    assert_eq!(e.phase, RootEnclavePhase::Challenged);
}

#[test]
fn firmware_version_query_is_always_legal() {
    let e = RootEnclave::new("0.3.0".to_string());
    assert_eq!(
        e.handle_fetch_firmware_version(),
        NitroRootEnclaveMessage::FirmwareVersion("0.3.0".to_string())
    );
}

#[test]
fn attestation_routing_decisions() {
    assert_eq!(psa_route("AttestationToken", true), RouteOutcome::AttestationToken);
    assert_eq!(psa_route("SomethingElse", true), RouteOutcome::Unsupported);
    assert_eq!(psa_route("AttestationToken", false), RouteOutcome::Unimplemented);
    assert_eq!(nitro_route("AttestationToken", true), RouteOutcome::AttestationToken);
    assert_eq!(nitro_route("Bogus", true), RouteOutcome::Unsupported);
    assert_eq!(nitro_route("AttestationToken", false), RouteOutcome::Unimplemented);
}
