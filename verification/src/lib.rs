//! Client-side fabric of a confidential-compute platform.
//!
//! A declarative policy fixes which runtime binaries (by hash, per
//! platform) may serve a session, which TLS 1.2 ciphersuite is used, and
//! where the relay server lives.  The modules here cover the policy model
//! and its fingerprint, the deterministic wire codec for the protocol
//! messages, the HTTP relay that carries TLS records in and out of the
//! enclave, the client-side session state machine with its policy-hash
//! and runtime-hash checks, the runtime-hash verifier, and the
//! root-enclave attestation state machine.

pub mod bytes;
pub mod client;
pub mod codec;
pub mod enclave;
pub mod error;
pub mod hex;
pub mod messages;
pub mod policy;
pub mod relay;
pub mod router;
pub mod runtime_hash;
