//! The HTTP relay that carries TLS records between the client-side TLS
//! engine and the enclave.
//!
//! Each engine write becomes one request body `"<session id> <base64
//! record>"`.  The response body is either empty or `"<new session id>
//! <base64 record>..."`; its records are appended, in order, to a FIFO read
//! buffer that the engine drains.  The session id starts at zero
//! (unassigned), is set by the first non-empty response, and never changes
//! afterwards.

use vstd::prelude::*;

use crate::error::VeracruzClientError;

verus! {

/// What `base64::encode` returns on a byte string (standard alphabet,
/// padded), as ASCII bytes.
pub uninterp spec fn b64_of(data: Seq<u8>) -> Seq<u8>;

/// What `base64::decode` returns on an ASCII byte string: the decoded
/// bytes, or nothing when the input is not valid base64.
pub uninterp spec fn b64_decoded(s: Seq<u8>) -> Option<Seq<u8>>;

/// Relies on `base64::encode`: the encoding of a byte string with the
/// standard alphabet, a function of the bytes alone.
#[verifier::external_body]
pub fn base64_encode(data: &[u8]) -> (r: Vec<u8>)
    ensures
        r@ == b64_of(data@),
{
    base64::encode(data).into_bytes()
}

/// Relies on `base64::decode`: decodes a standard-alphabet base64 string,
/// failing exactly on malformed input; a function of the bytes alone.
#[verifier::external_body]
pub fn base64_decode(s: &[u8]) -> (r: Option<Vec<u8>>)
    ensures
        r is Some <==> b64_decoded(s@) is Some,
        r matches Some(v) ==> b64_decoded(s@) == Some(v@),
{
    match base64::decode(s) {
        Ok(v) => Some(v),
        Err(_) => None,
    }
}

/// The decimal digits of `n`, most significant first, as ASCII bytes.
pub open spec fn dec_digits(n: nat) -> Seq<u8>
    decreases n,
{
    if n < 10 {
        seq![(48 + n) as u8]
    } else {
        dec_digits(n / 10) + seq![(48 + n % 10) as u8]
    }
}

/// Render a session id in decimal.
pub fn u32_to_decimal(n: u32) -> (r: Vec<u8>)
    ensures
        r@ == dec_digits(n as nat),
    decreases n,
{
    if n < 10 {
        let mut v: Vec<u8> = Vec::new();
        v.push(48 + n as u8);
        proof {
            assert(v@ =~= dec_digits(n as nat));
        }
        v
    } else {
        let mut v = u32_to_decimal(n / 10);
        v.push(48 + (n % 10) as u8);
        proof {
            assert(v@ =~= dec_digits(n as nat));
        }
        v
    }
}

/// Is this byte an ASCII decimal digit?
pub open spec fn is_dec_digit(b: u8) -> bool {
    48 <= b < 58
}

pub open spec fn all_dec_digits(s: Seq<u8>) -> bool {
    forall|i: int| 0 <= i < s.len() ==> is_dec_digit(s[i])
}

/// The number a digit string denotes, most significant digit first.
pub open spec fn dec_value(s: Seq<u8>) -> nat
    recommends
        all_dec_digits(s),
    decreases s.len(),
{
    if s.len() == 0 {
        0
    } else {
        dec_value(s.drop_last()) * 10 + (s.last() - 48) as nat
    }
}

/// A longer digit string never denotes a smaller number.
proof fn lemma_dec_value_prefix(s: Seq<u8>, k: int)
    requires
        0 <= k <= s.len(),
    ensures
        dec_value(s.take(k)) <= dec_value(s),
    decreases s.len() - k,
{
    if k < s.len() {
        lemma_dec_value_prefix(s, k + 1);
        assert(s.take(k + 1).drop_last() =~= s.take(k));
        assert(dec_value(s.take(k)) <= dec_value(s.take(k + 1)));
    } else {
        assert(s.take(k) =~= s);
    }
}

/// The session id a relay token denotes, when it is a well-formed decimal
/// number that fits in 32 bits.
pub open spec fn session_token(t: Seq<u8>) -> Option<u32> {
    if t.len() > 0 && all_dec_digits(t) && dec_value(t) <= u32::MAX {
        Some(dec_value(t) as u32)
    } else {
        None
    }
}

/// Parse a relay token as a session id.
pub fn parse_session_token(t: &[u8]) -> (r: Option<u32>)
    ensures
        r == session_token(t@),
{
    if t.len() == 0 {
        return None;
    }
    let mut acc: u64 = 0;
    let mut i: usize = 0;
    while i < t.len()
        invariant
            i <= t@.len(),
            forall|j: int| 0 <= j < i ==> is_dec_digit(t@[j]),
            acc == dec_value(t@.take(i as int)),
            acc <= u32::MAX,
        decreases t@.len() - i,
    {
        let b = t[i];
        if b < 48 || b >= 58 {
            return None;
        }
        proof {
            assert(t@.take(i + 1).drop_last() =~= t@.take(i as int));
        }
        acc = acc * 10 + (b - 48) as u64;
        i = i + 1;
        if acc > u32::MAX as u64 {
            proof {
                lemma_dec_value_prefix(t@, i as int);
            }
            return None;
        }
    }
    proof {
        assert(t@.take(t@.len() as int) =~= t@);
    }
    Some(acc as u32)
}

/// Is this byte ASCII whitespace (space, tab, line feed, carriage return)?
pub open spec fn is_ws(b: u8) -> bool {
    b == 32 || b == 9 || b == 10 || b == 13
}

fn is_ws_exec(b: u8) -> (r: bool)
    ensures
        r == is_ws(b),
{
    b == 32 || b == 9 || b == 10 || b == 13
}

/// Length of the leading run of non-whitespace bytes.
pub open spec fn token_len(s: Seq<u8>) -> nat
    decreases s.len(),
{
    if s.len() == 0 || is_ws(s[0]) {
        0
    } else {
        1 + token_len(s.skip(1))
    }
}

/// The leading token is never longer than the string itself.
pub proof fn lemma_token_len_le(s: Seq<u8>)
    ensures
        token_len(s) <= s.len(),
    decreases s.len(),
{
    if s.len() != 0 && !is_ws(s[0]) {
        lemma_token_len_le(s.skip(1));
    }
}

/// The whitespace-separated tokens of a byte string, in order.
pub open spec fn tokens_of(s: Seq<u8>) -> Seq<Seq<u8>>
    decreases s.len(),
    via tokens_of_decreases
{
    if s.len() == 0 {
        seq![]
    } else if is_ws(s[0]) {
        tokens_of(s.skip(1))
    } else {
        seq![s.take(token_len(s) as int)] + tokens_of(s.skip(token_len(s) as int))
    }
}

#[via_fn]
proof fn tokens_of_decreases(s: Seq<u8>) {
    if s.len() != 0 && !is_ws(s[0]) {
        lemma_token_len_le(s);
    }
}

/// Split a byte string into its whitespace-separated tokens.
pub fn tokenize(s: &[u8]) -> (r: Vec<Vec<u8>>)
    ensures
        r.deep_view() == tokens_of(s@),
{
    let mut toks: Vec<Vec<u8>> = Vec::new();
    let mut i: usize = 0;
    proof {
        assert(s@.skip(0) =~= s@);
        assert(toks.deep_view() + tokens_of(s@) =~= tokens_of(s@));
    }
    while i < s.len()
        invariant
            i <= s@.len(),
            tokens_of(s@) == toks.deep_view() + tokens_of(s@.skip(i as int)),
        decreases s@.len() - i,
    {
        if is_ws_exec(s[i]) {
            proof {
                assert(s@.skip(i as int)[0] == s@[i as int]);
                assert(s@.skip(i as int).skip(1) =~= s@.skip(i + 1));
            }
            i = i + 1;
        } else {
            let ghost tail = s@.skip(i as int);
            let mut j: usize = i;
            while j < s.len() && !is_ws_exec(s[j])
                invariant
                    i <= j <= s@.len(),
                    tail == s@.skip(i as int),
                    token_len(tail) == (j - i) + token_len(s@.skip(j as int)),
                decreases s@.len() - j,
            {
                proof {
                    assert(s@.skip(j as int).skip(1) =~= s@.skip(j + 1));
                    assert(s@.skip(j as int)[0] == s@[j as int]);
                }
                j = j + 1;
            }
            proof {
                if j < s@.len() {
                    assert(s@.skip(j as int)[0] == s@[j as int]);
                }
                assert(token_len(s@.skip(j as int)) == 0);
                assert(token_len(tail) == j - i);
                assert(tail[0] == s@[i as int]);
                assert(tail.take((j - i) as int) =~= s@.subrange(i as int, j as int));
                assert(tail.skip((j - i) as int) =~= s@.skip(j as int));
                assert(tokens_of(tail) == seq![s@.subrange(i as int, j as int)] + tokens_of(
                    s@.skip(j as int),
                ));
            }
            let ghost dv_before = toks.deep_view();
            let tok = vstd::slice::slice_to_vec(vstd::slice::slice_subrange(s, i, j));
            toks.push(tok);
            proof {
                assert(toks.deep_view() =~~= dv_before + seq![s@.subrange(i as int, j as int)]);
                assert((dv_before + seq![s@.subrange(i as int, j as int)]) + tokens_of(
                    s@.skip(j as int),
                ) =~= dv_before + (seq![s@.subrange(i as int, j as int)] + tokens_of(
                    s@.skip(j as int),
                )));
                assert(tokens_of(s@) == toks.deep_view() + tokens_of(s@.skip(j as int)));
            }
            i = j;
        }
    }
    proof {
        assert(s@.skip(i as int) =~= Seq::<u8>::empty());
        assert(tokens_of(Seq::<u8>::empty()) =~= Seq::<Seq<u8>>::empty());
        assert(toks.deep_view() =~= tokens_of(s@));
    }
    toks
}

/// The concatenation of the base64 decodings of a token list, or nothing
/// if any token is malformed.
pub open spec fn decoded_records(tks: Seq<Seq<u8>>) -> Option<Seq<u8>>
    decreases tks.len(),
{
    if tks.len() == 0 {
        Some(Seq::empty())
    } else {
        if decoded_records(tks.drop_last()) is Some && b64_decoded(tks.last()) is Some {
            Some(decoded_records(tks.drop_last())->0 + b64_decoded(tks.last())->0)
        } else {
            None
        }
    }
}

/// Once a token list fails to decode, no extension of it decodes.
proof fn lemma_decoded_records_extend_none(tks: Seq<Seq<u8>>, k: int)
    requires
        0 <= k <= tks.len(),
        decoded_records(tks.take(k)) is None,
    ensures
        decoded_records(tks) is None,
    decreases tks.len() - k,
{
    if k < tks.len() {
        assert(tks.take(k + 1).drop_last() =~= tks.take(k));
        lemma_decoded_records_extend_none(tks, k + 1);
    } else {
        assert(tks.take(k) =~= tks);
    }
}

/// Client-side state of one relayed TLS session: the assigned session id
/// (zero while unassigned) and the FIFO buffer of plaintext-record bytes
/// received but not yet consumed by the TLS engine.
pub struct RelaySession {
    pub session_id: u32,
    pub read_buffer: Vec<u8>,
}

impl RelaySession {
    /// A fresh session: no id assigned, nothing buffered.
    pub fn new() -> (r: Self)
        ensures
            r.session_id == 0,
            r.read_buffer@ == Seq::<u8>::empty(),
    {
        RelaySession { session_id: 0, read_buffer: Vec::new() }
    }

    /// The request body that carries one TLS record to the enclave:
    /// the current session id in decimal, one space, the record in base64.
    pub fn request_body(&self, record: &[u8]) -> (r: Vec<u8>)
        ensures
            r@ == dec_digits(self.session_id as nat) + seq![32u8] + b64_of(record@),
    {
        let mut body = u32_to_decimal(self.session_id);
        body.push(32);
        let mut encoded = base64_encode(record);
        body.append(&mut encoded);
        body
    }

    /// Fold one relay response body into the session.
    ///
    /// An empty (or all-whitespace) body changes nothing.  Otherwise the
    /// first token must be a decimal session id: zero is never assigned, and
    /// an id that contradicts an already-assigned one is a protocol error.
    /// The remaining tokens are base64 records, appended to the read buffer
    /// in order.  On any error the session is left unchanged; the session
    /// id, once non-zero, never changes.
    #[verifier::loop_isolation(false)]
    pub fn process_response(&mut self, body: &[u8]) -> (r: Result<(), VeracruzClientError>)
        ensures
            old(self).session_id != 0 ==> final(self).session_id == old(self).session_id,
            r is Err ==> *final(self) == *old(self),
            tokens_of(body@).len() == 0 ==> r is Ok && *final(self) == *old(self),
            tokens_of(body@).len() > 0 ==> {
                let tks = tokens_of(body@);
                match session_token(tks[0]) {
                    None => r == Err::<(), VeracruzClientError>(
                        VeracruzClientError::MalformedResponse,
                    ),
                    Some(id) => {
                        if id == 0 {
                            r == Err::<(), VeracruzClientError>(VeracruzClientError::SessionIdZero)
                        } else if old(self).session_id != 0 && id != old(self).session_id {
                            r == Err::<(), VeracruzClientError>(
                                VeracruzClientError::SessionIdMismatch {
                                    assigned: old(self).session_id,
                                    reported: id,
                                },
                            )
                        } else {
                            match decoded_records(tks.skip(1)) {
                                None => r == Err::<(), VeracruzClientError>(
                                    VeracruzClientError::Base64Error,
                                ),
                                Some(data) => r is Ok && final(self).session_id == id
                                    && final(self).read_buffer@ == old(self).read_buffer@ + data,
                            }
                        }
                    },
                }
            },
    {
        let toks = tokenize(body);
        proof {
            if toks@.len() > 0 {
                assert(toks.deep_view()[0] =~= toks@[0]@);
            }
        }
        if toks.len() == 0 {
            return Ok(());
        }
        let id = match parse_session_token(toks[0].as_slice()) {
            Some(id) => id,
            None => {
                return Err(VeracruzClientError::MalformedResponse);
            },
        };
        if id == 0 {
            return Err(VeracruzClientError::SessionIdZero);
        }
        if self.session_id != 0 && id != self.session_id {
            return Err(VeracruzClientError::SessionIdMismatch {
                assigned: self.session_id,
                reported: id,
            });
        }
        let ghost tks = toks.deep_view();
        let mut data: Vec<u8> = Vec::new();
        let mut k: usize = 1;
        while k < toks.len()
            invariant
                1 <= k <= toks@.len(),
                tks == toks.deep_view(),
                tks.len() == toks@.len(),
                decoded_records(tks.skip(1).take(k - 1)) == Some(data@),
            decreases toks@.len() - k,
        {
            proof {
                assert(tks.skip(1).take(k as int).drop_last() =~= tks.skip(1).take(k - 1));
                assert(tks.skip(1).take(k as int).last() == tks[k as int]);
                assert(toks@[k as int]@ =~= tks[k as int]);
            }
            let decoded = match base64_decode(toks[k].as_slice()) {
                Some(d) => d,
                None => {
                    proof {
                        assert(decoded_records(tks.skip(1).take(k as int)) is None);
                        lemma_decoded_records_extend_none(tks.skip(1), k as int);
                    }
                    return Err(VeracruzClientError::Base64Error);
                },
            };
            let mut decoded = decoded;
            data.append(&mut decoded);
            k = k + 1;
        }
        proof {
            assert(tks.skip(1).take(k - 1) =~= tks.skip(1));
        }
        self.session_id = id;
        self.read_buffer.append(&mut data);
        Ok(())
    }

    /// Hand up to `n` buffered plaintext bytes to the TLS engine, in FIFO
    /// order; a request for zero bytes is a no-op.
    pub fn take_from_buffer(&mut self, n: usize) -> (r: Vec<u8>)
        ensures
            ({
                let k = if n <= old(self).read_buffer@.len() {
                    n as int
                } else {
                    old(self).read_buffer@.len() as int
                };
                r@ == old(self).read_buffer@.take(k) && final(self).read_buffer@ == old(
                    self,
                ).read_buffer@.skip(k)
            }),
            final(self).session_id == old(self).session_id,
            n == 0 ==> r@.len() == 0 && final(self).read_buffer@ == old(self).read_buffer@,
    {
        let len = self.read_buffer.len();
        let k = if n <= len {
            n
        } else {
            len
        };
        let head = vstd::slice::slice_to_vec(
            vstd::slice::slice_subrange(self.read_buffer.as_slice(), 0, k),
        );
        let rest = vstd::slice::slice_to_vec(
            vstd::slice::slice_subrange(self.read_buffer.as_slice(), k, len),
        );
        proof {
            if n == 0 {
                assert(self.read_buffer@.skip(0) =~= self.read_buffer@);
            }
        }
        self.read_buffer = rest;
        head
    }
}


/// What a raw TLS record is, judged from its first bytes.
pub open spec fn spec_describe_tls_message(data: Seq<u8>) -> Seq<char>
    recommends
        data.len() >= 1,
        data[0] == 0x16 ==> data.len() >= 6,
{
    if data[0] == 0x16 {
        if data[5] == 0x01 {
            "Handshake: Client hello"@
        } else if data[5] == 0x02 {
            "Handshake: Server hello"@
        } else if data[5] == 0x0b {
            "Handshake: Certificate"@
        } else if data[5] == 0x0c {
            "Handshake: ServerKeyExchange"@
        } else if data[5] == 0x0d {
            "Handshake: CertificateRequest"@
        } else if data[5] == 0x0e {
            "Handshake: ServerHelloDone"@
        } else if data[5] == 0x10 {
            "Handshake: ClientKeyExchange"@
        } else if data[5] == 0x0f {
            "Handshake: CertificateVerify"@
        } else if data[5] == 0x14 {
            "Handshake: Finished"@
        } else {
            "Handshake: Unknown"@
        }
    } else if data[0] == 0x14 {
        "ChangeCipherSpec"@
    } else if data[0] == 0x15 {
        "Alert"@
    } else if data[0] == 0x17 {
        "ApplicationData"@
    } else {
        "Unknown"@
    }
}

/// Describe a raw TLS record for diagnostics: its record type, and for a
/// handshake record the handshake message type.
pub fn decode_tls_message(data: &[u8]) -> (r: String)
    requires
        data@.len() >= 1,
        data@[0] == 0x16 ==> data@.len() >= 6,
    ensures
        r@ == spec_describe_tls_message(data@),
{
    if data[0] == 0x16 {
        if data[5] == 0x01 {
            <String as vstd::string::StringExecFns>::from_str("Handshake: Client hello")
        } else if data[5] == 0x02 {
            <String as vstd::string::StringExecFns>::from_str("Handshake: Server hello")
        } else if data[5] == 0x0b {
            <String as vstd::string::StringExecFns>::from_str("Handshake: Certificate")
        } else if data[5] == 0x0c {
            <String as vstd::string::StringExecFns>::from_str("Handshake: ServerKeyExchange")
        } else if data[5] == 0x0d {
            <String as vstd::string::StringExecFns>::from_str("Handshake: CertificateRequest")
        } else if data[5] == 0x0e {
            <String as vstd::string::StringExecFns>::from_str("Handshake: ServerHelloDone")
        } else if data[5] == 0x10 {
            <String as vstd::string::StringExecFns>::from_str("Handshake: ClientKeyExchange")
        } else if data[5] == 0x0f {
            <String as vstd::string::StringExecFns>::from_str("Handshake: CertificateVerify")
        } else if data[5] == 0x14 {
            <String as vstd::string::StringExecFns>::from_str("Handshake: Finished")
        } else {
            <String as vstd::string::StringExecFns>::from_str("Handshake: Unknown")
        }
    } else if data[0] == 0x14 {
        <String as vstd::string::StringExecFns>::from_str("ChangeCipherSpec")
    } else if data[0] == 0x15 {
        <String as vstd::string::StringExecFns>::from_str("Alert")
    } else if data[0] == 0x17 {
        <String as vstd::string::StringExecFns>::from_str("ApplicationData")
    } else {
        <String as vstd::string::StringExecFns>::from_str("Unknown")
    }
}

} // verus!
