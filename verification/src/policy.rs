//! The policy model.
//!
//! A policy is a JSON document fixing, before any secret flows, the server
//! URL, the single TLS 1.2 ciphersuite, the proxy-service CA certificate,
//! and the approved runtime hash for each platform.  The policy fingerprint
//! is the hex form of a SHA-256 digest over the raw JSON text, byte for
//! byte, never over a re-serialization.

use vstd::prelude::*;
use vstd::string::*;

use crate::error::VeracruzClientError;
use crate::hex::hex_chars;

verus! {

/// The TEE platforms a policy may approve.
#[derive(Clone, Copy, Debug, PartialEq, Eq, Structural)]
pub enum Platform {
    Linux,
    Nitro,
    IceCap,
}

/// The fields the policy model reads from the JSON document.
pub struct PolicyFields {
    pub server_url: String,
    pub ciphersuite: String,
    pub proxy_service_cert: String,
    pub hash_linux: Option<String>,
    pub hash_nitro: Option<String>,
    pub hash_icecap: Option<String>,
}

/// The view of an optional string.
pub open spec fn opt_view(o: Option<String>) -> Option<Seq<char>> {
    match o {
        None => None,
        Some(s) => Some(s@),
    }
}

/// What extracting the policy fields from a JSON text yields: nothing when
/// the text is not a JSON object or a required field is absent, else the
/// server URL, ciphersuite name and proxy-service certificate, and the
/// per-platform runtime hashes that are present.
pub uninterp spec fn policy_fields_of(s: Seq<char>) -> Option<
    (Seq<char>, Seq<char>, Seq<char>, Option<Seq<char>>, Option<Seq<char>>, Option<Seq<char>>),
>;

/// Relies on `serde_json::from_str` and `serde_json::Value::{get,as_str}`:
/// parses the policy JSON and reads its top-level string fields, a function
/// of the text alone.
#[verifier::external_body]
fn extract_policy_fields(text: &str) -> (r: Option<PolicyFields>)
    ensures
        r is Some <==> policy_fields_of(text@) is Some,
        r matches Some(f) ==> policy_fields_of(text@) == Some(
            (
                f.server_url@,
                f.ciphersuite@,
                f.proxy_service_cert@,
                opt_view(f.hash_linux),
                opt_view(f.hash_nitro),
                opt_view(f.hash_icecap),
            ),
        ),
{
    let v: serde_json::Value = match serde_json::from_str(text) {
        Ok(v) => v,
        Err(_) => return None,
    };
    Some(PolicyFields {
        server_url: v.get("veracruz_server_url")?.as_str()?.to_string(),
        ciphersuite: v.get("ciphersuite")?.as_str()?.to_string(),
        proxy_service_cert: v.get("proxy_service_cert")?.as_str()?.to_string(),
        hash_linux: v.get("runtime_manager_hash_linux").and_then(|x| x.as_str()).map(String::from),
        hash_nitro: v.get("runtime_manager_hash_nitro").and_then(|x| x.as_str()).map(String::from),
        hash_icecap: v.get("runtime_manager_hash_icecap").and_then(|x| x.as_str()).map(
            String::from,
        ),
    })
}

/// What `sha2::Sha256` computes: a digest that is a function of the bytes
/// alone.
pub uninterp spec fn sha256_of(data: Seq<u8>) -> Seq<u8>;

/// Relies on `sha2::Sha256`: the SHA-256 digest of the input, 32 bytes.
#[verifier::external_body]
fn sha256(data: &[u8]) -> (r: Vec<u8>)
    ensures
        r@ == sha256_of(data@),
        r@.len() == 32,
{
    <sha2::Sha256 as sha2::Digest>::digest(data).to_vec()
}

/// The policy fingerprint: lower-case hex of the SHA-256 digest over the
/// raw JSON text.  A pure function of the text, so two computations of it
/// always agree.
pub open spec fn spec_policy_hash(text: Seq<char>) -> Seq<char> {
    hex_chars(sha256_of(vstd::utf8::encode_utf8(text)))
}

/// Hash a policy text into its hex fingerprint.
pub fn policy_hash_hex(text: &str) -> (r: String)
    ensures
        r@ == spec_policy_hash(text@),
{
    let digest = sha256(text.as_bytes());
    crate::hex::print_hex(digest.as_slice())
}

/// The policy fingerprint is byte-for-byte stable: it is a function of
/// the policy text alone, so any two computations over the same text
/// agree, whenever and wherever they run.
pub proof fn lemma_policy_hash_stable(t1: Seq<char>, t2: Seq<char>)
    requires
        t1 == t2,
    ensures
        spec_policy_hash(t1) == spec_policy_hash(t2),
{
}

/// The one ciphersuite name the fabric accepts, mapped to the TLS 1.2
/// cipher id 0xCCA8 (ECDHE-RSA with ChaCha20-Poly1305).
pub open spec fn spec_ciphersuite_id(name: Seq<char>) -> Option<u16> {
    if name == "TLS1_2_ECDHE_RSA_WITH_CHACHA20_POLY1305_SHA256"@ {
        Some(0xCCA8u16)
    } else {
        None
    }
}

/// Resolve a ciphersuite name to its TLS 1.2 cipher id.
pub fn lookup_ciphersuite(name: &String) -> (r: Option<u16>)
    ensures
        r == spec_ciphersuite_id(name@),
{
    let known = String::from_str("TLS1_2_ECDHE_RSA_WITH_CHACHA20_POLY1305_SHA256");
    if *name == known {
        Some(0xCCA8)
    } else {
        None
    }
}

/// A parsed policy.  Immutable after load.
#[derive(Debug)]
pub struct Policy {
    pub server_url: String,
    pub ciphersuite: String,
    pub proxy_service_cert: String,
    pub hash_linux: Option<String>,
    pub hash_nitro: Option<String>,
    pub hash_icecap: Option<String>,
}

impl Policy {
    /// A policy is well formed when it approves at least one runtime hash
    /// and its ciphersuite resolves to a concrete TLS 1.2 cipher id.
    pub open spec fn wf(self) -> bool {
        (self.hash_linux is Some || self.hash_nitro is Some || self.hash_icecap is Some)
            && spec_ciphersuite_id(self.ciphersuite@) is Some
    }

    /// The approved runtime hash for a platform, as recorded (hex text).
    pub open spec fn spec_runtime_hash(self, platform: Platform) -> Option<Seq<char>> {
        match platform {
            Platform::Linux => opt_view(self.hash_linux),
            Platform::Nitro => opt_view(self.hash_nitro),
            Platform::IceCap => opt_view(self.hash_icecap),
        }
    }

    /// Parse a policy from its JSON text.
    ///
    /// Fails with `MalformedPolicy` when the text is not a JSON object,
    /// a required field is missing, or no platform has a runtime hash;
    /// with `UnknownCiphersuite` when the named suite has no TLS 1.2
    /// mapping.
    pub fn from_json(text: &str) -> (r: Result<Policy, VeracruzClientError>)
        ensures
            r matches Ok(p) ==> {
                &&& p.wf()
                &&& policy_fields_of(text@) == Some(
                    (
                        p.server_url@,
                        p.ciphersuite@,
                        p.proxy_service_cert@,
                        opt_view(p.hash_linux),
                        opt_view(p.hash_nitro),
                        opt_view(p.hash_icecap),
                    ),
                )
            },
            match policy_fields_of(text@) {
                None => r == Err::<Policy, VeracruzClientError>(
                    VeracruzClientError::MalformedPolicy,
                ),
                Some((url, cipher, cert, hl, hn, hi)) => {
                    if hl is None && hn is None && hi is None {
                        r == Err::<Policy, VeracruzClientError>(VeracruzClientError::MalformedPolicy)
                    } else if spec_ciphersuite_id(cipher) is None {
                        r == Err::<Policy, VeracruzClientError>(
                            VeracruzClientError::UnknownCiphersuite,
                        )
                    } else {
                        r is Ok
                    }
                },
            },
    {
        let fields = match extract_policy_fields(text) {
            Some(f) => f,
            None => {
                return Err(VeracruzClientError::MalformedPolicy);
            },
        };
        if fields.hash_linux.is_none() && fields.hash_nitro.is_none()
            && fields.hash_icecap.is_none() {
            return Err(VeracruzClientError::MalformedPolicy);
        }
        if lookup_ciphersuite(&fields.ciphersuite).is_none() {
            return Err(VeracruzClientError::UnknownCiphersuite);
        }
        Ok(
            Policy {
                server_url: fields.server_url,
                ciphersuite: fields.ciphersuite,
                proxy_service_cert: fields.proxy_service_cert,
                hash_linux: fields.hash_linux,
                hash_nitro: fields.hash_nitro,
                hash_icecap: fields.hash_icecap,
            },
        )
    }

    /// The approved runtime hash for a platform, if the policy has one.
    pub fn runtime_hash(&self, platform: Platform) -> (r: Option<&String>)
        ensures
            r is Some <==> self.spec_runtime_hash(platform) is Some,
            r matches Some(h) ==> Some(h@) == self.spec_runtime_hash(platform),
    {
        match platform {
            Platform::Linux => self.hash_linux.as_ref(),
            Platform::Nitro => self.hash_nitro.as_ref(),
            Platform::IceCap => self.hash_icecap.as_ref(),
        }
    }

    /// The TLS 1.2 cipher id of the policy's ciphersuite.
    pub fn ciphersuite_id(&self) -> (r: u16)
        requires
            self.wf(),
        ensures
            Some(r) == spec_ciphersuite_id(self.ciphersuite@),
    {
        match lookup_ciphersuite(&self.ciphersuite) {
            Some(id) => id,
            None => 0,
        }
    }

    /// The relay server's URL.
    pub fn server_url(&self) -> (r: &String)
        ensures
            r@ == self.server_url@,
    {
        &self.server_url
    }

    /// The PEM certificate chain of the proxy attestation service.
    pub fn proxy_service_cert(&self) -> (r: &String)
        ensures
            r@ == self.proxy_service_cert@,
    {
        &self.proxy_service_cert
    }
}

} // verus!
