//! The runtime-hash verifier.
//!
//! After the TLS handshake the peer's leaf certificate must carry a custom
//! extension whose payload is the enclave's measured runtime hash.  The
//! verifier extracts that extension by its fixed OID and accepts exactly
//! when the payload equals the decoded runtime hash the policy approves
//! for some platform.

use vstd::prelude::*;

use crate::error::VeracruzClientError;
use crate::hex::{hex_value, valid_hex};
use crate::policy::{Platform, Policy};

verus! {

/// The fixed four-component OID arc of the runtime-hash extension.
pub open spec fn spec_runtime_hash_oid() -> Seq<u8> {
    seq![2u8, 5u8, 30u8, 1u8]
}

pub fn runtime_hash_oid() -> (r: Vec<u8>)
    ensures
        r@ == spec_runtime_hash_oid(),
{
    let r = vec![2u8, 5u8, 30u8, 1u8];
    proof {
        assert(r@ =~= spec_runtime_hash_oid());
    }
    r
}

/// DER collapses the first two components of a four-component arc into the
/// single byte `40 * a + b`, leaving a three-byte lookup key.
pub open spec fn spec_encoded_extension_id(oid: Seq<u8>) -> Seq<u8>
    recommends
        oid.len() == 4,
        oid[0] * 40 + oid[1] <= 255,
{
    seq![(oid[0] * 40 + oid[1]) as u8, oid[2], oid[3]]
}

/// Derive the three-byte DER lookup key of a four-component arc.
pub fn encoded_extension_id(oid: &[u8]) -> (r: Vec<u8>)
    requires
        oid@.len() == 4,
        oid@[0] * 40 + oid@[1] <= 255,
    ensures
        r@ == spec_encoded_extension_id(oid@),
{
    let r = vec![oid[0] * 40 + oid[1], oid[2], oid[3]];
    proof {
        assert(r@ =~= spec_encoded_extension_id(oid@));
    }
    r
}

/// What parsing a DER certificate and listing its extensions yields:
/// nothing when the bytes are not a certificate, else each extension's
/// DER-encoded OID body and raw value, in order; a function of the bytes
/// alone.
pub uninterp spec fn cert_extensions_of(der: Seq<u8>) -> Option<Seq<(Seq<u8>, Seq<u8>)>>;

/// Relies on `x509_parser::parse_x509_certificate` and
/// `TbsCertificate::extensions`: the certificate's extension list as
/// (OID body bytes, value bytes) pairs.
#[verifier::external_body]
fn cert_extensions(der: &[u8]) -> (r: Option<Vec<(Vec<u8>, Vec<u8>)>>)
    ensures
        r is Some <==> cert_extensions_of(der@) is Some,
        r matches Some(v) ==> Some(v.deep_view()) == cert_extensions_of(der@),
{
    let (_, cert) = x509_parser::parse_x509_certificate(der).ok()?;
    Some(
        cert.tbs_certificate.extensions().iter().map(
            |e| (e.oid.as_bytes().to_vec(), e.value.to_vec()),
        ).collect(),
    )
}

/// The value of the first extension whose OID body equals `key`.
pub open spec fn spec_find_extension(exts: Seq<(Seq<u8>, Seq<u8>)>, key: Seq<u8>) -> Option<
    Seq<u8>,
>
    decreases exts.len(),
{
    if exts.len() == 0 {
        None
    } else if exts.first().0 == key {
        Some(exts.first().1)
    } else {
        spec_find_extension(exts.drop_first(), key)
    }
}

/// Do two byte strings hold the same bytes?
pub fn bytes_eq(a: &[u8], b: &[u8]) -> (r: bool)
    ensures
        r == (a@ == b@),
{
    if a.len() != b.len() {
        proof {
            assert(a@ != b@);
        }
        return false;
    }
    let mut i: usize = 0;
    while i < a.len()
        invariant
            i <= a@.len(),
            a@.len() == b@.len(),
            forall|j: int| 0 <= j < i ==> a@[j] == b@[j],
        decreases a@.len() - i,
    {
        if a[i] != b[i] {
            return false;
        }
        i = i + 1;
    }
    proof {
        assert(a@ =~= b@);
    }
    true
}

#[verifier::loop_isolation(false)]
fn find_extension<'a>(exts: &'a Vec<(Vec<u8>, Vec<u8>)>, key: &[u8]) -> (r: Option<&'a Vec<u8>>)
    ensures
        ({
            let found = spec_find_extension(exts.deep_view(), key@);
            match r {
                None => found is None,
                Some(v) => found == Some(v@),
            }
        }),
{
    proof {
        assert forall|j: int| 0 <= j < exts@.len() implies #[trigger] exts.deep_view()[j] == (
        exts@[j].0@,
        exts@[j].1@,
        ) by {
            assert(exts.deep_view()[j].0 =~= exts@[j].0@);
            assert(exts.deep_view()[j].1 =~= exts@[j].1@);
        }
    }
    let ghost dv = exts.deep_view();
    let mut i: usize = 0;
    proof {
        assert(dv.skip(0) =~= dv);
    }
    while i < exts.len()
        invariant
            i <= exts@.len(),
            spec_find_extension(dv.skip(i as int), key@) == spec_find_extension(dv, key@),
        decreases exts@.len() - i,
    {
        proof {
            assert(dv.skip(i as int).first() == dv[i as int]);
            assert(dv.skip(i as int).drop_first() =~= dv.skip(i + 1));
        }
        if bytes_eq(exts[i].0.as_slice(), key) {
            return Some(&exts[i].1);
        }
        i = i + 1;
    }
    proof {
        assert(dv.skip(exts@.len() as int) =~= Seq::<(Seq<u8>, Seq<u8>)>::empty());
    }
    None
}

/// The terminal outcome one platform contributes: nothing when the policy
/// records no hash for it or the hash differs; an error when the recorded
/// hash is not hex; acceptance on a byte-for-byte match.
pub open spec fn platform_check(h: Option<Seq<char>>, received: Seq<u8>) -> Option<
    Result<(), VeracruzClientError>,
> {
    match h {
        None => None,
        Some(hx) => {
            let bytes = vstd::utf8::encode_utf8(hx);
            if !valid_hex(bytes) {
                Some(Err(VeracruzClientError::HexError))
            } else if hex_value(bytes) == received {
                Some(Ok(()))
            } else {
                None
            }
        },
    }
}

/// The verifier's verdict on received runtime-hash bytes: the platforms
/// are consulted in a fixed order, and the first terminal outcome wins;
/// with none, no approved hash matched.
pub open spec fn spec_compare_runtime_hash(p: Policy, received: Seq<u8>) -> Result<
    (),
    VeracruzClientError,
> {
    match platform_check(p.spec_runtime_hash(Platform::Linux), received) {
        Some(o) => o,
        None => match platform_check(p.spec_runtime_hash(Platform::Nitro), received) {
            Some(o) => o,
            None => match platform_check(p.spec_runtime_hash(Platform::IceCap), received) {
                Some(o) => o,
                None => Err(VeracruzClientError::NoMatchingRuntimeIsolateHash),
            },
        },
    }
}

/// Does the policy approve these bytes as the runtime hash of this
/// platform?
pub open spec fn approves(p: Policy, platform: Platform, received: Seq<u8>) -> bool {
    match p.spec_runtime_hash(platform) {
        None => false,
        Some(hx) => {
            let bytes = vstd::utf8::encode_utf8(hx);
            valid_hex(bytes) && hex_value(bytes) == received
        },
    }
}

/// With well-formed hex in the policy, the verifier accepts exactly the
/// byte strings that equal some platform's approved runtime hash.
pub proof fn lemma_verifier_accepts_iff(p: Policy, received: Seq<u8>)
    requires
        forall|platform: Platform|
            (#[trigger] p.spec_runtime_hash(platform)) matches Some(hx) ==> valid_hex(
                vstd::utf8::encode_utf8(hx),
            ),
    ensures
        spec_compare_runtime_hash(p, received) is Ok <==> (approves(p, Platform::Linux, received)
            || approves(p, Platform::Nitro, received) || approves(p, Platform::IceCap, received)),
{
    assert(p.spec_runtime_hash(Platform::Linux) == p.spec_runtime_hash(Platform::Linux));
    assert(p.spec_runtime_hash(Platform::Nitro) == p.spec_runtime_hash(Platform::Nitro));
    assert(p.spec_runtime_hash(Platform::IceCap) == p.spec_runtime_hash(Platform::IceCap));
}

fn check_one_platform(p: &Policy, platform: Platform, received: &[u8]) -> (r: Option<
    Result<(), VeracruzClientError>,
>)
    ensures
        r == platform_check(p.spec_runtime_hash(platform), received@),
{
    let hx = match p.runtime_hash(platform) {
        None => {
            return None;
        },
        Some(hx) => hx,
    };
    let bytes = hx.as_str().as_bytes_vec();
    match crate::hex::hex_decode(bytes.as_slice()) {
        None => Some(Err(VeracruzClientError::HexError)),
        Some(decoded) => {
            if bytes_eq(decoded.as_slice(), received) {
                Some(Ok(()))
            } else {
                None
            }
        },
    }
}

/// Compare received runtime-hash bytes against every platform the policy
/// approves.
pub fn compare_runtime_hash(p: &Policy, received: &[u8]) -> (r: Result<(), VeracruzClientError>)
    ensures
        r == spec_compare_runtime_hash(*p, received@),
{
    if let Some(o) = check_one_platform(p, Platform::Linux, received) {
        return o;
    }
    if let Some(o) = check_one_platform(p, Platform::Nitro, received) {
        return o;
    }
    if let Some(o) = check_one_platform(p, Platform::IceCap, received) {
        return o;
    }
    Err(VeracruzClientError::NoMatchingRuntimeIsolateHash)
}

/// The verifier's verdict on a whole peer certificate.
pub open spec fn spec_check_runtime_hash(p: Policy, der: Seq<u8>) -> Result<
    (),
    VeracruzClientError,
> {
    match cert_extensions_of(der) {
        None => Err(VeracruzClientError::NoPeerCertificate),
        Some(exts) => match spec_find_extension(
            exts,
            spec_encoded_extension_id(spec_runtime_hash_oid()),
        ) {
            None => Err(VeracruzClientError::RuntimeHashExtensionMissing),
            Some(payload) => spec_compare_runtime_hash(p, payload),
        },
    }
}

/// Check the peer certificate's runtime-hash extension against the policy.
///
/// An unparsable certificate, a missing extension, and a payload no
/// platform approves are each fatal, in that order of detection.
pub fn check_runtime_hash(p: &Policy, cert_der: &[u8]) -> (r: Result<(), VeracruzClientError>)
    ensures
        r == spec_check_runtime_hash(*p, cert_der@),
{
    let exts = match cert_extensions(cert_der) {
        None => {
            return Err(VeracruzClientError::NoPeerCertificate);
        },
        Some(exts) => exts,
    };
    let oid = runtime_hash_oid();
    let key = encoded_extension_id(oid.as_slice());
    let payload = match find_extension(&exts, key.as_slice()) {
        None => {
            return Err(VeracruzClientError::RuntimeHashExtensionMissing);
        },
        Some(payload) => payload,
    };
    compare_runtime_hash(p, payload.as_slice())
}

} // verus!
