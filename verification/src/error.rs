//! Error type shared by the whole fabric.

use vstd::prelude::*;

verus! {

/// Status code carried by protocol replies.
#[derive(Clone, Copy, Debug, PartialEq, Eq, Structural)]
pub enum Status {
    Success,
    Fail,
    Unimplemented,
}

/// Everything that can go wrong on the client side of the fabric.
///
/// Configuration failures are fatal at construction; attestation failures
/// taint the session; protocol and transport failures surface to the caller.
#[derive(Debug, PartialEq, Eq)]
pub enum VeracruzClientError {
    /// The policy text is not valid JSON or lacks a required field.
    MalformedPolicy,
    /// The policy names a ciphersuite with no TLS 1.2 mapping.
    UnknownCiphersuite,
    /// A value did not match its expected counterpart (`variable` says which).
    MismatchError { variable: String, expected: Vec<u8>, received: Vec<u8> },
    /// The peer certificate carries no runtime-hash extension.
    RuntimeHashExtensionMissing,
    /// The extension bytes match no approved runtime hash of any platform.
    NoMatchingRuntimeIsolateHash,
    /// The peer presented no certificate, or one that cannot be parsed.
    NoPeerCertificate,
    /// The client certificate is past its validity period.
    CertificateExpired,
    /// A runtime hash recorded in the policy is not a valid hex string.
    HexError,
    /// A reply did not decode under the wire codec, or its first relay
    /// token is not a session id.
    MalformedResponse,
    /// The relay reported a session id of zero, which is never assigned.
    SessionIdZero,
    /// The relay reported a session id other than the one already assigned.
    SessionIdMismatch { assigned: u32, reported: u32 },
    /// A relay record was not valid base64.
    Base64Error,
    /// The reply carried a status other than success (`operation` says
    /// which request it answered).
    ResponseError { operation: String, status: Status },
    /// A reply that owed a payload carried none, or the wrong kind.
    UnexpectedResponse,
    /// A successful compute or read reply carried no result blob.
    NoResult,
    /// A data-plane operation ran before both session checks had passed.
    ChecksNotPerformed,
}

} // verus!
