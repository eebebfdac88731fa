//! The protocol message sets.
//!
//! `NitroRootEnclaveMessage` is the message set spoken between the host and
//! a per-platform root enclave (attestation); `RuntimeManagerRequest` and
//! `RuntimeManagerResponse` form the session protocol spoken through the
//! TLS channel with the runtime manager.  All of them travel under the
//! deterministic wire codec in `codec`.

use vstd::prelude::*;

use crate::error::Status;

verus! {

/// Messages passed to and from a root enclave during attestation.
#[derive(Debug, PartialEq, Eq)]
pub enum NitroRootEnclaveMessage {
    /// Reply of an operation that returned no data, only a status.
    Status(Status),
    /// Ask the root enclave for its firmware version.
    FetchFirmwareVersion,
    /// The firmware version, answering `FetchFirmwareVersion`.
    FirmwareVersion(String),
    /// Install the issued certificate chain: root certificate, CA certificate.
    SetCertChain(Vec<u8>, Vec<u8>),
    /// Begin native attestation: a 128-bit challenge and a device id.
    NativeAttestation(Vec<u8>, i32),
    /// Native evidence answering `NativeAttestation`: token and CSR.
    TokenData(Vec<u8>, Vec<u8>),
    /// Begin the proxy attestation flow.
    StartProxy,
    /// Challenge answering `StartProxy`: a 128-bit nonce and a challenge id.
    ChallengeData(Vec<u8>, i32),
    /// Evidence bound to an earlier challenge: token and challenge id.
    ProxyAttestation(Vec<u8>, i32),
    /// The final certificate chain.
    CertChain(Vec<Vec<u8>>),
    /// Terminal success reply.
    Success,
}

/// Equality of two root-enclave messages, down to their byte and character
/// contents.
pub open spec fn root_msg_eq(a: NitroRootEnclaveMessage, b: NitroRootEnclaveMessage) -> bool {
    match (a, b) {
        (NitroRootEnclaveMessage::Status(x), NitroRootEnclaveMessage::Status(y)) => x == y,
        (
            NitroRootEnclaveMessage::FetchFirmwareVersion,
            NitroRootEnclaveMessage::FetchFirmwareVersion,
        ) => true,
        (
            NitroRootEnclaveMessage::FirmwareVersion(s),
            NitroRootEnclaveMessage::FirmwareVersion(t),
        ) => s@ == t@,
        (
            NitroRootEnclaveMessage::SetCertChain(a1, a2),
            NitroRootEnclaveMessage::SetCertChain(b1, b2),
        ) => a1@ == b1@ && a2@ == b2@,
        (
            NitroRootEnclaveMessage::NativeAttestation(n, i),
            NitroRootEnclaveMessage::NativeAttestation(m, j),
        ) => n@ == m@ && i == j,
        (NitroRootEnclaveMessage::TokenData(t1, c1), NitroRootEnclaveMessage::TokenData(t2, c2)) => t1@
            == t2@ && c1@ == c2@,
        (NitroRootEnclaveMessage::StartProxy, NitroRootEnclaveMessage::StartProxy) => true,
        (
            NitroRootEnclaveMessage::ChallengeData(n, i),
            NitroRootEnclaveMessage::ChallengeData(m, j),
        ) => n@ == m@ && i == j,
        (
            NitroRootEnclaveMessage::ProxyAttestation(t, i),
            NitroRootEnclaveMessage::ProxyAttestation(u, j),
        ) => t@ == u@ && i == j,
        (NitroRootEnclaveMessage::CertChain(x), NitroRootEnclaveMessage::CertChain(y)) => x.deep_view()
            == y.deep_view(),
        (NitroRootEnclaveMessage::Success, NitroRootEnclaveMessage::Success) => true,
        _ => false,
    }
}

/// Requests sent to the runtime manager inside the TLS channel.
#[derive(Debug, PartialEq, Eq)]
pub enum RuntimeManagerRequest {
    /// Ask for the hash of the policy the enclave was provisioned with.
    RequestPolicyHash,
    /// Upload a program to the named path.
    SendProgram(String, Vec<u8>),
    /// Upload a data fragment to the named path.
    SendData(String, Vec<u8>),
    /// Execute the program at the named path.
    RequestCompute(String),
    /// Read the file at the named path.
    ReadFile(String),
    /// Ask the enclave to shut down.
    RequestShutdown,
}

/// Equality of two requests, down to their byte and character contents.
pub open spec fn request_eq(a: RuntimeManagerRequest, b: RuntimeManagerRequest) -> bool {
    match (a, b) {
        (RuntimeManagerRequest::RequestPolicyHash, RuntimeManagerRequest::RequestPolicyHash) => true,
        (RuntimeManagerRequest::SendProgram(p, d), RuntimeManagerRequest::SendProgram(q, e)) => p@
            == q@ && d@ == e@,
        (RuntimeManagerRequest::SendData(p, d), RuntimeManagerRequest::SendData(q, e)) => p@ == q@
            && d@ == e@,
        (RuntimeManagerRequest::RequestCompute(p), RuntimeManagerRequest::RequestCompute(q)) => p@
            == q@,
        (RuntimeManagerRequest::ReadFile(p), RuntimeManagerRequest::ReadFile(q)) => p@ == q@,
        (RuntimeManagerRequest::RequestShutdown, RuntimeManagerRequest::RequestShutdown) => true,
        _ => false,
    }
}

/// The payload a runtime-manager reply may carry.
#[derive(Debug, PartialEq, Eq)]
pub enum ResponsePayload {
    /// The enclave's policy hash, as bytes.
    PolicyHash(Vec<u8>),
    /// A result blob read from the enclave filesystem.
    ResultData(Vec<u8>),
}

/// A reply of the runtime manager: a status, and at most one payload.
#[derive(Debug, PartialEq, Eq)]
pub struct RuntimeManagerResponse {
    pub status: Status,
    pub payload: Option<ResponsePayload>,
}

/// The result blob a reply carries, if any.
pub open spec fn response_result_bytes(m: RuntimeManagerResponse) -> Option<Seq<u8>> {
    match m.payload {
        Some(ResponsePayload::ResultData(d)) => Some(d@),
        _ => None,
    }
}

/// The policy-hash bytes a reply carries, if any.
pub open spec fn response_policy_hash_bytes(m: RuntimeManagerResponse) -> Option<Seq<u8>> {
    match m.payload {
        Some(ResponsePayload::PolicyHash(h)) => Some(h@),
        _ => None,
    }
}

/// Equality of two replies, down to their byte contents.
pub open spec fn response_eq(a: RuntimeManagerResponse, b: RuntimeManagerResponse) -> bool {
    a.status == b.status && match (a.payload, b.payload) {
        (None, None) => true,
        (Some(ResponsePayload::PolicyHash(x)), Some(ResponsePayload::PolicyHash(y))) => x@ == y@,
        (Some(ResponsePayload::ResultData(x)), Some(ResponsePayload::ResultData(y))) => x@ == y@,
        _ => false,
    }
}

} // verus!
