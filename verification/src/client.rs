//! The client-side session state machine.
//!
//! A client holds the parsed policy and its fingerprint.  Before any
//! data-plane request may be built, the enclave's self-reported policy
//! hash must have matched the local fingerprint, and the peer
//! certificate's runtime-hash extension must have matched a policy-approved
//! hash.  Either check failing taints the client, and the data-plane
//! builders refuse to produce request bytes until both checks pass again.
//! The surrounding program performs the transport: it sends the bytes a
//! builder returns through the TLS channel and hands the reply bytes to
//! the matching handler.

use vstd::prelude::*;
use vstd::string::*;

use crate::codec::{
    chunks_of_request, chunks_of_response, chunks_wf, decode_response, enc_list, enc_request,
    enc_response, encode_request, lemma_response_codec_injective,
};
use crate::error::{Status, VeracruzClientError};
use crate::messages::{ResponsePayload, RuntimeManagerRequest, RuntimeManagerResponse};
use crate::policy::{
    opt_view, policy_fields_of, policy_hash_hex, spec_policy_hash, Policy,
};
use crate::runtime_hash::{bytes_eq, spec_check_runtime_hash};

verus! {

/// A path with its leading slashes removed.
pub open spec fn strip_leading_slashes(p: Seq<char>) -> Seq<char>
    decreases p.len(),
{
    if p.len() > 0 && p[0] == '/' {
        strip_leading_slashes(p.skip(1))
    } else {
        p
    }
}

/// The path as presented on the wire: exactly one leading slash.
pub open spec fn normalize_path(p: Seq<char>) -> Seq<char> {
    seq!['/'] + strip_leading_slashes(p)
}

/// A stripped path never starts with a slash.
proof fn lemma_stripped_no_slash(p: Seq<char>)
    ensures
        strip_leading_slashes(p).len() > 0 ==> strip_leading_slashes(p)[0] != '/',
    decreases p.len(),
{
    if p.len() > 0 && p[0] == '/' {
        lemma_stripped_no_slash(p.skip(1));
    }
}

/// Every path presented on the wire begins with exactly one slash: the
/// first character is `/` and the second, if any, is not.
pub proof fn lemma_normalized_path_single_slash(p: Seq<char>)
    ensures
        normalize_path(p).len() >= 1,
        normalize_path(p)[0] == '/',
        normalize_path(p).len() > 1 ==> normalize_path(p)[1] != '/',
{
    lemma_stripped_no_slash(p);
}

/// Normalize a path to exactly one leading slash.
#[verifier::loop_isolation(false)]
pub fn enforce_leading_slash(path: &str) -> (r: String)
    ensures
        r@ == normalize_path(path@),
{
    let n = path.unicode_len();
    let mut i: usize = 0;
    proof {
        assert(path@.skip(0) =~= path@);
    }
    while i < n && path.get_char(i) == '/'
        invariant
            i <= n,
            strip_leading_slashes(path@) == strip_leading_slashes(path@.skip(i as int)),
        decreases n - i,
    {
        proof {
            assert(path@.skip(i as int)[0] == path@[i as int]);
            assert(path@.skip(i as int).skip(1) =~= path@.skip(i + 1));
        }
        i = i + 1;
    }
    proof {
        if i < n {
            assert(path@.skip(i as int)[0] == path@[i as int]);
        } else {
            assert(path@.skip(i as int) =~= Seq::<char>::empty());
        }
        assert(strip_leading_slashes(path@.skip(i as int)) == path@.skip(i as int));
    }
    let rest = path.substring_char(i, n);
    let mut out = String::from_str("/");
    out.append(rest);
    proof {
        reveal_strlit("/");
        assert(rest@ =~= path@.skip(i as int));
        assert(out@ =~= normalize_path(path@));
    }
    out
}

/// The wire bytes of a program upload to a normalized path.
pub open spec fn send_program_wire(path: Seq<char>, data: Seq<u8>) -> Seq<u8> {
    enc_list(seq![seq![1u8], vstd::utf8::encode_utf8(path), data])
}

/// The wire bytes of a data upload to a normalized path.
pub open spec fn send_data_wire(path: Seq<char>, data: Seq<u8>) -> Seq<u8> {
    enc_list(seq![seq![2u8], vstd::utf8::encode_utf8(path), data])
}

/// The wire bytes of a compute request for a normalized path.
pub open spec fn request_compute_wire(path: Seq<char>) -> Seq<u8> {
    enc_list(seq![seq![3u8], vstd::utf8::encode_utf8(path)])
}

/// The wire bytes of a result read from a normalized path.
pub open spec fn read_file_wire(path: Seq<char>) -> Seq<u8> {
    enc_list(seq![seq![4u8], vstd::utf8::encode_utf8(path)])
}

/// The client: the policy, its fingerprint, and the two session checks.
#[derive(Debug)]
pub struct VeracruzClient {
    pub policy: Policy,
    pub policy_hash: String,
    pub policy_checked: bool,
    pub runtime_checked: bool,
}

impl VeracruzClient {
    /// Both pre-conditions of the data plane hold.
    pub open spec fn checks_passed(self) -> bool {
        self.policy_checked && self.runtime_checked
    }

    /// Build a client from a policy text: parse it and fingerprint the raw
    /// text.  No check has passed yet.
    pub fn new(policy_json: &str) -> (r: Result<VeracruzClient, VeracruzClientError>)
        ensures
            r matches Ok(c) ==> {
                &&& c.policy.wf()
                &&& policy_fields_of(policy_json@) == Some(
                    (
                        c.policy.server_url@,
                        c.policy.ciphersuite@,
                        c.policy.proxy_service_cert@,
                        opt_view(c.policy.hash_linux),
                        opt_view(c.policy.hash_nitro),
                        opt_view(c.policy.hash_icecap),
                    ),
                )
                &&& c.policy_hash@ == spec_policy_hash(policy_json@)
                &&& !c.policy_checked
                &&& !c.runtime_checked
            },
            match policy_fields_of(policy_json@) {
                None => r == Err::<VeracruzClient, VeracruzClientError>(
                    VeracruzClientError::MalformedPolicy,
                ),
                Some((url, cipher, cert, hl, hn, hi)) => {
                    if hl is None && hn is None && hi is None {
                        r == Err::<VeracruzClient, VeracruzClientError>(
                            VeracruzClientError::MalformedPolicy,
                        )
                    } else if crate::policy::spec_ciphersuite_id(cipher) is None {
                        r == Err::<VeracruzClient, VeracruzClientError>(
                            VeracruzClientError::UnknownCiphersuite,
                        )
                    } else {
                        r is Ok
                    }
                },
            },
    {
        let policy = Policy::from_json(policy_json)?;
        let policy_hash = policy_hash_hex(policy_json);
        Ok(Self::with_policy_and_hash(policy, policy_hash))
    }

    /// Build a client from an already-parsed policy and its fingerprint.
    pub fn with_policy_and_hash(policy: Policy, policy_hash: String) -> (r: VeracruzClient)
        requires
            policy.wf(),
        ensures
            r.policy == policy,
            r.policy_hash == policy_hash,
            !r.policy_checked,
            !r.runtime_checked,
    {
        VeracruzClient { policy, policy_hash, policy_checked: false, runtime_checked: false }
    }

    /// Check a client certificate against its private key and expiry: the
    /// public key derived from the key must equal the certificate's, DER
    /// byte for byte, and the certificate must not have expired.
    pub fn check_certificate_validity(
        cert_public_der: &[u8],
        key_public_der: &[u8],
        expired: bool,
    ) -> (r: Result<(), VeracruzClientError>)
        ensures
            r is Ok <==> cert_public_der@ == key_public_der@ && !expired,
            cert_public_der@ != key_public_der@ ==> (r matches Err(
                VeracruzClientError::MismatchError { variable, expected, received },
            ) && variable@ == "public_key"@ && expected@ == cert_public_der@ && received@
                == key_public_der@),
            cert_public_der@ == key_public_der@ && expired ==> r == Err::<(), VeracruzClientError>(
                VeracruzClientError::CertificateExpired,
            ),
    {
        if !bytes_eq(cert_public_der, key_public_der) {
            return Err(
                VeracruzClientError::MismatchError {
                    variable: String::from_str("public_key"),
                    expected: vstd::slice::slice_to_vec(cert_public_der),
                    received: vstd::slice::slice_to_vec(key_public_der),
                },
            );
        }
        if expired {
            return Err(VeracruzClientError::CertificateExpired);
        }
        Ok(())
    }

    /// The request bytes of the policy-hash probe.
    pub fn policy_hash_request(&self) -> (r: Vec<u8>)
        ensures
            r@ == enc_request(RuntimeManagerRequest::RequestPolicyHash),
    {
        encode_request(&RuntimeManagerRequest::RequestPolicyHash)
    }

    /// Fold the reply of a policy-hash probe into the client.
    ///
    /// The check passes exactly when the reply decodes, reports success,
    /// and carries a policy hash equal to the local fingerprint; any other
    /// reply taints the client.
    pub fn handle_policy_hash_response(&mut self, resp: &[u8]) -> (r: Result<
        (),
        VeracruzClientError,
    >)
        ensures
            final(self).policy == old(self).policy,
            final(self).policy_hash == old(self).policy_hash,
            final(self).runtime_checked == old(self).runtime_checked,
            final(self).policy_checked == (r is Ok),
            forall|m: RuntimeManagerResponse|
                chunks_wf(chunks_of_response(m)) && enc_response(m) == resp@ ==> {
                    &&& (r is Ok <==> (m.status == Status::Success
                        && crate::messages::response_policy_hash_bytes(m) == Some(
                        vstd::utf8::encode_utf8(old(self).policy_hash@),
                    )))
                    &&& (m.status != Status::Success ==> (r matches Err(
                        VeracruzClientError::ResponseError { operation, status },
                    ) && operation@ == "check_policy_hash"@ && status == m.status))
                    &&& (m.status == Status::Success
                        && crate::messages::response_policy_hash_bytes(m) is None ==> r == Err::<
                        (),
                        VeracruzClientError,
                    >(VeracruzClientError::UnexpectedResponse))
                    &&& (m.status == Status::Success
                        && crate::messages::response_policy_hash_bytes(m) is Some
                        && crate::messages::response_policy_hash_bytes(m) != Some(
                        vstd::utf8::encode_utf8(old(self).policy_hash@),
                    ) ==> (r matches Err(
                        VeracruzClientError::MismatchError { variable, expected, received },
                    ) && variable@ == "check_policy_hash"@ && expected@ == vstd::utf8::encode_utf8(
                        old(self).policy_hash@,
                    ) && Some(received@) == crate::messages::response_policy_hash_bytes(m)))
                },
            (forall|m: RuntimeManagerResponse|
                chunks_wf(chunks_of_response(m)) ==> enc_response(m) != resp@) ==> r == Err::<
                (),
                VeracruzClientError,
            >(VeracruzClientError::MalformedResponse),
    {
        self.policy_checked = false;
        let decoded = match decode_response(resp) {
            None => {
                return Err(VeracruzClientError::MalformedResponse);
            },
            Some(m) => m,
        };
        let ghost md = decoded;
        match decoded.status {
            Status::Success => {},
            st => {
                proof {
                    assert forall|m: RuntimeManagerResponse|
                        chunks_wf(chunks_of_response(m)) && enc_response(m)
                            == resp@ implies m.status == md.status by {
                        lemma_response_codec_injective(m, md);
                    }
                }
                return Err(
                    VeracruzClientError::ResponseError {
                        operation: String::from_str("check_policy_hash"),
                        status: st,
                    },
                );
            },
        }
        let received = match &decoded.payload {
            Some(ResponsePayload::PolicyHash(h)) => h,
            _ => {
                proof {
                    assert forall|m: RuntimeManagerResponse|
                        chunks_wf(chunks_of_response(m)) && enc_response(m) == resp@ implies (
                        m.status == Status::Success
                            && crate::messages::response_policy_hash_bytes(m) is None) by {
                        lemma_response_codec_injective(m, md);
                    }
                }
                return Err(VeracruzClientError::UnexpectedResponse);
            },
        };
        let local = self.policy_hash.as_str().as_bytes_vec();
        let ghost rcv = received@;
        if bytes_eq(received.as_slice(), local.as_slice()) {
            self.policy_checked = true;
            proof {
                assert forall|m: RuntimeManagerResponse|
                    chunks_wf(chunks_of_response(m)) && enc_response(m) == resp@ implies (m.status
                    == Status::Success && crate::messages::response_policy_hash_bytes(m) == Some(
                    vstd::utf8::encode_utf8(self.policy_hash@),
                )) by {
                    lemma_response_codec_injective(m, md);
                }
            }
            Ok(())
        } else {
            proof {
                assert forall|m: RuntimeManagerResponse|
                    chunks_wf(chunks_of_response(m)) && enc_response(m) == resp@ implies (m.status
                    == Status::Success && crate::messages::response_policy_hash_bytes(m) == Some(
                    rcv,
                )) by {
                    lemma_response_codec_injective(m, md);
                }
                assert(rcv != vstd::utf8::encode_utf8(self.policy_hash@));
            }
            Err(
                VeracruzClientError::MismatchError {
                    variable: String::from_str("check_policy_hash"),
                    expected: local,
                    received: vstd::slice::slice_to_vec(received.as_slice()),
                },
            )
        }
    }

    /// Check the peer certificate's runtime-hash extension against the
    /// policy; the outcome is recorded in the client.
    pub fn check_runtime_hash(&mut self, cert_der: &[u8]) -> (r: Result<(), VeracruzClientError>)
        ensures
            final(self).policy == old(self).policy,
            final(self).policy_hash == old(self).policy_hash,
            final(self).policy_checked == old(self).policy_checked,
            r == spec_check_runtime_hash(old(self).policy, cert_der@),
            final(self).runtime_checked == (r is Ok),
    {
        let r = crate::runtime_hash::check_runtime_hash(&self.policy, cert_der);
        self.runtime_checked = r.is_ok();
        r
    }

    /// The request bytes of a program upload, with the path normalized;
    /// refused unless both session checks have passed.
    pub fn send_program_request(&self, path: &str, program: &[u8]) -> (r: Result<
        Vec<u8>,
        VeracruzClientError,
    >)
        ensures
            !self.checks_passed() ==> r == Err::<Vec<u8>, VeracruzClientError>(
                VeracruzClientError::ChecksNotPerformed,
            ),
            self.checks_passed() ==> (r matches Ok(b) && b@ == send_program_wire(
                normalize_path(path@),
                program@,
            )),
    {
        if !(self.policy_checked && self.runtime_checked) {
            return Err(VeracruzClientError::ChecksNotPerformed);
        }
        let p = enforce_leading_slash(path);
        let msg = RuntimeManagerRequest::SendProgram(p, vstd::slice::slice_to_vec(program));
        let b = encode_request(&msg);
        proof {
            assert(chunks_of_request(msg) =~~= seq![
                seq![1u8],
                vstd::utf8::encode_utf8(normalize_path(path@)),
                program@,
            ]);
        }
        Ok(b)
    }

    /// The request bytes of a data upload, with the path normalized;
    /// refused unless both session checks have passed.
    pub fn send_data_request(&self, path: &str, data: &[u8]) -> (r: Result<
        Vec<u8>,
        VeracruzClientError,
    >)
        ensures
            !self.checks_passed() ==> r == Err::<Vec<u8>, VeracruzClientError>(
                VeracruzClientError::ChecksNotPerformed,
            ),
            self.checks_passed() ==> (r matches Ok(b) && b@ == send_data_wire(
                normalize_path(path@),
                data@,
            )),
    {
        if !(self.policy_checked && self.runtime_checked) {
            return Err(VeracruzClientError::ChecksNotPerformed);
        }
        let p = enforce_leading_slash(path);
        let msg = RuntimeManagerRequest::SendData(p, vstd::slice::slice_to_vec(data));
        let b = encode_request(&msg);
        proof {
            assert(chunks_of_request(msg) =~~= seq![
                seq![2u8],
                vstd::utf8::encode_utf8(normalize_path(path@)),
                data@,
            ]);
        }
        Ok(b)
    }

    /// The request bytes of a compute request, with the path normalized;
    /// refused unless both session checks have passed.
    pub fn request_compute_request(&self, path: &str) -> (r: Result<Vec<u8>, VeracruzClientError>)
        ensures
            !self.checks_passed() ==> r == Err::<Vec<u8>, VeracruzClientError>(
                VeracruzClientError::ChecksNotPerformed,
            ),
            self.checks_passed() ==> (r matches Ok(b) && b@ == request_compute_wire(
                normalize_path(path@),
            )),
    {
        if !(self.policy_checked && self.runtime_checked) {
            return Err(VeracruzClientError::ChecksNotPerformed);
        }
        let p = enforce_leading_slash(path);
        let msg = RuntimeManagerRequest::RequestCompute(p);
        let b = encode_request(&msg);
        proof {
            assert(chunks_of_request(msg) =~~= seq![
                seq![3u8],
                vstd::utf8::encode_utf8(normalize_path(path@)),
            ]);
        }
        Ok(b)
    }

    /// The request bytes of a result read, with the path normalized;
    /// refused unless both session checks have passed.
    pub fn get_results_request(&self, path: &str) -> (r: Result<Vec<u8>, VeracruzClientError>)
        ensures
            !self.checks_passed() ==> r == Err::<Vec<u8>, VeracruzClientError>(
                VeracruzClientError::ChecksNotPerformed,
            ),
            self.checks_passed() ==> (r matches Ok(b) && b@ == read_file_wire(
                normalize_path(path@),
            )),
    {
        if !(self.policy_checked && self.runtime_checked) {
            return Err(VeracruzClientError::ChecksNotPerformed);
        }
        let p = enforce_leading_slash(path);
        let msg = RuntimeManagerRequest::ReadFile(p);
        let b = encode_request(&msg);
        proof {
            assert(chunks_of_request(msg) =~~= seq![
                seq![4u8],
                vstd::utf8::encode_utf8(normalize_path(path@)),
            ]);
        }
        Ok(b)
    }

    /// The request bytes of a shutdown request.  Shutdown is deliberately
    /// not gated on the session checks, and it is best-effort: once the
    /// record has been handed to the transport, callers treat a transport
    /// failure as success.
    pub fn request_shutdown_request(&self) -> (r: Vec<u8>)
        ensures
            r@ == enc_request(RuntimeManagerRequest::RequestShutdown),
    {
        encode_request(&RuntimeManagerRequest::RequestShutdown)
    }

    /// Interpret the reply of a program or data upload: success, or the
    /// reported status as an error.
    pub fn handle_upload_response(&self, operation: &str, resp: &[u8]) -> (r: Result<
        (),
        VeracruzClientError,
    >)
        ensures
            forall|m: RuntimeManagerResponse|
                chunks_wf(chunks_of_response(m)) && enc_response(m) == resp@ ==> {
                    &&& (r is Ok <==> m.status == Status::Success)
                    &&& (m.status != Status::Success ==> (r matches Err(
                        VeracruzClientError::ResponseError { operation: op_label, status },
                    ) && op_label@ == operation@ && status == m.status))
                },
            (forall|m: RuntimeManagerResponse|
                chunks_wf(chunks_of_response(m)) ==> enc_response(m) != resp@) ==> r == Err::<
                (),
                VeracruzClientError,
            >(VeracruzClientError::MalformedResponse),
    {
        let decoded = match decode_response(resp) {
            None => {
                return Err(VeracruzClientError::MalformedResponse);
            },
            Some(m) => m,
        };
        let ghost md = decoded;
        proof {
            assert forall|m: RuntimeManagerResponse|
                chunks_wf(chunks_of_response(m)) && enc_response(m) == resp@ implies m.status
                == md.status by {
                lemma_response_codec_injective(m, md);
            }
        }
        match decoded.status {
            Status::Success => Ok(()),
            st => Err(
                VeracruzClientError::ResponseError { operation: operation.to_owned(), status: st },
            ),
        }
    }

    /// Interpret the reply of a compute request or a result read: the
    /// result bytes on success, an error for a non-success status or a
    /// success that carries no result.
    pub fn handle_result_response(&self, operation: &str, resp: &[u8]) -> (r: Result<
        Vec<u8>,
        VeracruzClientError,
    >)
        ensures
            forall|m: RuntimeManagerResponse|
                chunks_wf(chunks_of_response(m)) && enc_response(m) == resp@ ==> {
                    &&& (r is Ok <==> (m.status == Status::Success
                        && crate::messages::response_result_bytes(m) is Some))
                    &&& (r matches Ok(d) ==> Some(d@) == crate::messages::response_result_bytes(m))
                    &&& (m.status != Status::Success ==> (r matches Err(
                        VeracruzClientError::ResponseError { operation: op_label, status },
                    ) && op_label@ == operation@ && status == m.status))
                    &&& (m.status == Status::Success
                        && crate::messages::response_result_bytes(m) is None ==> r == Err::<
                        Vec<u8>,
                        VeracruzClientError,
                    >(VeracruzClientError::NoResult))
                },
            (forall|m: RuntimeManagerResponse|
                chunks_wf(chunks_of_response(m)) ==> enc_response(m) != resp@) ==> r == Err::<
                Vec<u8>,
                VeracruzClientError,
            >(VeracruzClientError::MalformedResponse),
    {
        let decoded = match decode_response(resp) {
            None => {
                return Err(VeracruzClientError::MalformedResponse);
            },
            Some(m) => m,
        };
        let ghost md = decoded;
        match decoded.status {
            Status::Success => {},
            st => {
                proof {
                    assert forall|m: RuntimeManagerResponse|
                        chunks_wf(chunks_of_response(m)) && enc_response(m) == resp@ implies m.status
                        == md.status by {
                        lemma_response_codec_injective(m, md);
                    }
                }
                return Err(
                    VeracruzClientError::ResponseError {
                        operation: operation.to_owned(),
                        status: st,
                    },
                );
            },
        }
        match decoded.payload {
            Some(ResponsePayload::ResultData(d)) => {
                let ghost dv = d@;
                proof {
                    assert forall|m: RuntimeManagerResponse|
                        chunks_wf(chunks_of_response(m)) && enc_response(m) == resp@ implies (
                        m.status == Status::Success && crate::messages::response_result_bytes(m)
                            == Some(dv)) by {
                        lemma_response_codec_injective(m, md);
                    }
                }
                Ok(d)
            },
            _ => {
                proof {
                    assert forall|m: RuntimeManagerResponse|
                        chunks_wf(chunks_of_response(m)) && enc_response(m) == resp@ implies (
                        m.status == Status::Success && crate::messages::response_result_bytes(
                            m,
                        ) is None) by {
                        lemma_response_codec_injective(m, md);
                    }
                }
                Err(VeracruzClientError::NoResult)
            },
        }
    }
}

} // verus!
