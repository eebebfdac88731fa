//! The deterministic wire codec.
//!
//! Every message is a list of byte chunks: a one-byte variant tag followed
//! by the fields in declaration order (strings as UTF-8, 32-bit integers as
//! four little-endian bytes).  A chunk list is framed as a 64-bit
//! little-endian chunk count followed by each chunk, length-prefixed the
//! same way.  Encoding is total over the declared schema and injective;
//! decoding accepts exactly the encodings, rejecting trailing bytes.

use vstd::prelude::*;

use crate::bytes::{
    lemma_i32_u32_inverse, lemma_u32_from_le_inverse, lemma_u32_le_inverse,
    lemma_u64_from_le_inverse, lemma_u64_le_inverse, u32_from_le_bytes, u32_le, u32_to_le_bytes,
    u64_from_le, u64_from_le_bytes, u64_le, u64_to_le_bytes,
};
use crate::error::Status;
use crate::messages::{
    root_msg_eq, NitroRootEnclaveMessage, RuntimeManagerRequest, RuntimeManagerResponse,
    request_eq, response_eq, ResponsePayload,
};

verus! {

broadcast use vstd::std_specs::vec::group_vec_axioms;

/// A chunk as it appears on the wire: eight little-endian length bytes,
/// then the chunk itself.
pub open spec fn lp(s: Seq<u8>) -> Seq<u8> {
    u64_le(s.len() as u64) + s
}

/// Parse one length-prefixed chunk at `pos`.
pub open spec fn read_chunk(s: Seq<u8>, pos: int) -> Option<(Seq<u8>, int)> {
    if 0 <= pos && pos + 8 <= s.len() {
        let n = u64_from_le(s.subrange(pos, pos + 8)) as int;
        if pos + 8 + n <= s.len() {
            Some((s.subrange(pos + 8, pos + 8 + n), pos + 8 + n))
        } else {
            None
        }
    } else {
        None
    }
}

/// Parsing at the start of a serialized chunk recovers exactly that chunk.
pub proof fn lemma_read_chunk_of_lp(prefix: Seq<u8>, s: Seq<u8>, rest: Seq<u8>)
    requires
        s.len() <= u64::MAX,
    ensures
        read_chunk(prefix + lp(s) + rest, prefix.len() as int) == Some(
            (s, prefix.len() + 8 + s.len() as int),
        ),
{
    let t = prefix + lp(s) + rest;
    let p = prefix.len() as int;
    assert(t.subrange(p, p + 8) =~= u64_le(s.len() as u64));
    lemma_u64_le_inverse(s.len() as u64);
    assert(t.subrange(p + 8, p + 8 + s.len()) =~= s);
}

/// The serialized form of the chunks themselves, in order.
pub open spec fn enc_chunks(cs: Seq<Seq<u8>>) -> Seq<u8>
    decreases cs.len(),
{
    if cs.len() == 0 {
        Seq::empty()
    } else {
        lp(cs.first()) + enc_chunks(cs.drop_first())
    }
}

/// A chunk list whose sizes fit the 64-bit length prefixes.  Every list
/// built from in-memory vectors satisfies this.
pub open spec fn chunks_wf(cs: Seq<Seq<u8>>) -> bool {
    cs.len() <= u64::MAX && forall|i: int| 0 <= i < cs.len() ==> #[trigger] cs[i].len() <= u64::MAX
}

/// The full wire form of a chunk list: the chunk count, then the chunks.
pub open spec fn enc_list(cs: Seq<Seq<u8>>) -> Seq<u8> {
    u64_le(cs.len() as u64) + enc_chunks(cs)
}

/// Parse `n` consecutive chunks starting at `pos`.
pub open spec fn read_chunks(s: Seq<u8>, pos: int, n: nat) -> Option<(Seq<Seq<u8>>, int)>
    decreases n,
{
    if n == 0 {
        Some((Seq::empty(), pos))
    } else {
        match read_chunk(s, pos) {
            None => None,
            Some((c, p)) => match read_chunks(s, p, (n - 1) as nat) {
                None => None,
                Some((cs, q)) => Some((seq![c] + cs, q)),
            },
        }
    }
}

/// Parse a whole wire buffer as a chunk list, rejecting trailing bytes.
pub open spec fn dec_list(s: Seq<u8>) -> Option<Seq<Seq<u8>>> {
    if s.len() >= 8 {
        let n = u64_from_le(s.subrange(0, 8));
        match read_chunks(s, 8, n as nat) {
            None => None,
            Some((cs, q)) => if q == s.len() {
                Some(cs)
            } else {
                None
            },
        }
    } else {
        None
    }
}

/// Parsing a serialized chunk list out of a longer buffer recovers exactly
/// the chunks and stops right after them.
#[verifier::rlimit(100)]
proof fn lemma_read_chunks_of_enc(s: Seq<u8>, pos: int, cs: Seq<Seq<u8>>, rest: Seq<u8>)
    requires
        forall|i: int| 0 <= i < cs.len() ==> #[trigger] cs[i].len() <= u64::MAX,
        0 <= pos <= s.len(),
        s.subrange(pos, s.len() as int) == enc_chunks(cs) + rest,
    ensures
        read_chunks(s, pos, cs.len()) == Some((cs, pos + enc_chunks(cs).len())),
    decreases cs.len(),
{
    if cs.len() == 0 {
        assert(read_chunks(s, pos, 0) == Some((Seq::<Seq<u8>>::empty(), pos)));
        assert(cs =~= Seq::<Seq<u8>>::empty());
    } else {
        let c0 = cs.first();
        let tail = cs.drop_first();
        assert(enc_chunks(cs) == lp(c0) + enc_chunks(tail));
        let p2 = pos + 8 + c0.len() as int;
        assert(s.subrange(pos, s.len() as int).len() == s.len() - pos);
        assert((enc_chunks(cs) + rest).len() == enc_chunks(cs).len() + rest.len());
        assert(s.len() - pos == enc_chunks(cs).len() + rest.len());
        assert forall|j: int| #![trigger s[j]] pos <= j < s.len() implies s[j] == (enc_chunks(cs)
            + rest)[j - pos] by {
            assert(s.subrange(pos, s.len() as int)[j - pos] == s[j]);
            assert(s.subrange(pos, s.len() as int)[j - pos] == (enc_chunks(cs) + rest)[j - pos]);
        }
        assert(read_chunk(s, pos) == Some((c0, p2))) by {
            assert(s.subrange(pos, pos + 8) =~= u64_le(c0.len() as u64));
            lemma_u64_le_inverse(c0.len() as u64);
            assert(s.subrange(pos + 8, p2) =~= c0);
        }
        assert(s.subrange(p2, s.len() as int) =~= enc_chunks(tail) + rest);
        lemma_read_chunks_of_enc(s, p2, tail, rest);
        assert(seq![c0] + tail =~= cs);
        assert(enc_chunks(cs).len() == 8 + c0.len() + enc_chunks(tail).len());
    }
}

/// Decoding inverts encoding: the codec round-trips on every well-formed
/// chunk list.
pub proof fn lemma_dec_enc_list(cs: Seq<Seq<u8>>)
    requires
        chunks_wf(cs),
    ensures
        dec_list(enc_list(cs)) == Some(cs),
{
    let s = enc_list(cs);
    assert(s.subrange(0, 8) =~= u64_le(cs.len() as u64));
    lemma_u64_le_inverse(cs.len() as u64);
    assert(s.subrange(8, s.len() as int) =~= enc_chunks(cs) + Seq::<u8>::empty());
    lemma_read_chunks_of_enc(s, 8, cs, Seq::empty());
}

/// The wire form determines the chunk list: encoding is injective.
pub proof fn lemma_enc_list_injective(a: Seq<Seq<u8>>, b: Seq<Seq<u8>>)
    requires
        chunks_wf(a),
        chunks_wf(b),
        enc_list(a) == enc_list(b),
    ensures
        a == b,
{
    lemma_dec_enc_list(a);
    lemma_dec_enc_list(b);
}

/// A successful parse re-serializes to exactly the bytes consumed.
proof fn lemma_read_chunks_sound(s: Seq<u8>, pos: int, n: nat)
    requires
        0 <= pos <= s.len(),
        read_chunks(s, pos, n) is Some,
    ensures
        ({
            let (cs, q) = read_chunks(s, pos, n)->0;
            cs.len() == n && pos <= q <= s.len() && enc_chunks(cs) == s.subrange(pos, q) && forall|
                i: int,
            | 0 <= i < cs.len() ==> #[trigger] cs[i].len() <= u64::MAX
        }),
    decreases n,
{
    if n == 0 {
        let (cs, q) = read_chunks(s, pos, n)->0;
        assert(enc_chunks(cs) =~= s.subrange(pos, pos));
    } else {
        let (c, p) = read_chunk(s, pos)->0;
        let header = s.subrange(pos, pos + 8);
        lemma_u64_from_le_inverse(header);
        assert(c.len() == u64_from_le(header) as int);
        assert(u64_le(c.len() as u64) == header);
        assert(lp(c) =~= s.subrange(pos, p));
        lemma_read_chunks_sound(s, p, (n - 1) as nat);
        let (rest, q) = read_chunks(s, p, (n - 1) as nat)->0;
        let cs = seq![c] + rest;
        assert(cs.first() == c);
        assert(cs.drop_first() =~= rest);
        assert(enc_chunks(cs) == lp(c) + enc_chunks(rest));
        assert(lp(c) + enc_chunks(rest) =~= s.subrange(pos, q));
        assert forall|i: int| 0 <= i < cs.len() implies #[trigger] cs[i].len() <= u64::MAX by {
            if i > 0 {
                assert(cs[i] == rest[i - 1]);
            }
        }
    }
}

/// Append one chunk to a partial encoding.
proof fn lemma_enc_chunks_snoc(cs: Seq<Seq<u8>>, k: int)
    requires
        0 <= k < cs.len(),
    ensures
        enc_chunks(cs.take(k + 1)) == enc_chunks(cs.take(k)) + lp(cs[k]),
    decreases k,
{
    if k == 0 {
        assert(cs.take(1).first() == cs[0]);
        assert(cs.take(1).drop_first() =~= Seq::<Seq<u8>>::empty());
        assert(cs.take(0) =~= Seq::<Seq<u8>>::empty());
        assert(enc_chunks(Seq::<Seq<u8>>::empty()) == Seq::<u8>::empty());
        assert(enc_chunks(cs.take(1)) == lp(cs[0]) + Seq::<u8>::empty());
        assert(lp(cs[0]) + Seq::<u8>::empty() =~= Seq::<u8>::empty() + lp(cs[0]));
        assert(enc_chunks(cs.take(0)) + lp(cs[0]) == Seq::<u8>::empty() + lp(cs[0]));
    } else {
        let d = cs.drop_first();
        lemma_enc_chunks_snoc(d, k - 1);
        assert(cs.take(k + 1).first() == cs.first());
        assert(cs.take(k + 1).drop_first() =~= d.take(k));
        assert(cs.take(k).first() == cs.first());
        assert(cs.take(k).drop_first() =~= d.take(k - 1));
        assert(d[k - 1] == cs[k]);
        assert(enc_chunks(cs.take(k + 1)) == lp(cs.first()) + enc_chunks(d.take(k)));
        assert(enc_chunks(cs.take(k)) == lp(cs.first()) + enc_chunks(d.take(k - 1)));
        assert((lp(cs.first()) + enc_chunks(d.take(k - 1))) + lp(cs[k]) =~= lp(cs.first()) + (
        enc_chunks(d.take(k - 1)) + lp(cs[k])));
    }
}

/// Serialize a chunk list.
#[verifier::loop_isolation(false)]
pub fn encode_chunks(cs: &Vec<Vec<u8>>) -> (r: Vec<u8>)
    ensures
        r@ == enc_list(cs.deep_view()),
        chunks_wf(cs.deep_view()),
{
    let ghost csv = cs.deep_view();
    proof {
        assert forall|i: int| 0 <= i < csv.len() implies #[trigger] csv[i].len() <= u64::MAX by {
            assert(csv[i] =~= cs@[i]@);
            assert(cs@[i].len() == cs@[i]@.len());
        }
    }
    let mut out = u64_to_le_bytes(cs.len() as u64);
    let mut i: usize = 0;
    proof {
        assert(csv.take(0) =~= Seq::<Seq<u8>>::empty());
        assert(out@ =~= u64_le(csv.len() as u64) + enc_chunks(csv.take(0)));
    }
    while i < cs.len()
        invariant
            i <= csv.len(),
            out@ == u64_le(csv.len() as u64) + enc_chunks(csv.take(i as int)),
        decreases csv.len() - i,
    {
        proof {
            assert(csv[i as int] =~= cs@[i as int]@);
        }
        let mut piece = u64_to_le_bytes(cs[i].len() as u64);
        out.append(&mut piece);
        let chunk = &cs[i];
        out.extend_from_slice(chunk.as_slice());
        proof {
            lemma_enc_chunks_snoc(csv, i as int);
            assert(out@ =~= u64_le(csv.len() as u64) + enc_chunks(csv.take(i + 1)));
        }
        i = i + 1;
    }
    proof {
        assert(csv.take(csv.len() as int) =~= csv);
    }
    out
}

fn get_chunk(s: &[u8], pos: usize) -> (r: Option<(Vec<u8>, usize)>)
    requires
        pos <= s@.len(),
    ensures
        r is None ==> read_chunk(s@, pos as int) is None,
        r matches Some((c, p)) ==> read_chunk(s@, pos as int) == Some((c@, p as int)) && pos < p
            <= s@.len(),
{
    let len = s.len();
    if len - pos < 8 {
        return None;
    }
    let n = u64_from_le_bytes(vstd::slice::slice_subrange(s, pos, pos + 8));
    if n > (len - pos - 8) as u64 {
        return None;
    }
    let n = n as usize;
    let c = vstd::slice::slice_to_vec(vstd::slice::slice_subrange(s, pos + 8, pos + 8 + n));
    Some((c, pos + 8 + n))
}

/// Parse a wire buffer as a chunk list; exactly the values `dec_list`
/// accepts, rejecting trailing bytes.
#[verifier::loop_isolation(false)]
pub fn decode_chunks(s: &[u8]) -> (r: Option<Vec<Vec<u8>>>)
    ensures
        r is None ==> dec_list(s@) is None,
        r matches Some(cs) ==> dec_list(s@) == Some(cs.deep_view()) && chunks_wf(cs.deep_view())
            && enc_list(cs.deep_view()) == s@,
{
    if s.len() < 8 {
        return None;
    }
    let count = u64_from_le_bytes(vstd::slice::slice_subrange(s, 0, 8));
    proof {
        assert(s@.subrange(0, 8) =~= s@.subrange(0int, 0int + 8));
    }
    let mut cs: Vec<Vec<u8>> = Vec::new();
    let mut pos: usize = 8;
    let mut i: u64 = 0;
    proof {
        assert(cs.deep_view() =~= Seq::<Seq<u8>>::empty());
    }
    while i < count
        invariant
            8 <= pos <= s@.len(),
            i <= count,
            cs.deep_view().len() == i,
            match read_chunks(s@, pos as int, (count - i) as nat) {
                None => read_chunks(s@, 8, count as nat) is None,
                Some((rest, q)) => read_chunks(s@, 8, count as nat) == Some(
                    (cs.deep_view() + rest, q),
                ),
            },
        decreases count - i,
    {
        match get_chunk(s, pos) {
            None => {
                return None;
            },
            Some((c, p)) => {
                let ghost dv_before = cs.deep_view();
                cs.push(c);
                proof {
                    assert(cs.deep_view() =~~= dv_before + seq![c@]);
                    if let Some((rest2, q2)) = read_chunks(s@, p as int, (count - i - 1) as nat) {
                        assert((dv_before + seq![c@]) + rest2 =~= dv_before + (seq![c@] + rest2));
                    }
                }
                pos = p;
                i = i + 1;
            },
        }
    }
    proof {
        assert(read_chunks(s@, pos as int, 0) == Some((Seq::<Seq<u8>>::empty(), pos as int)));
        assert(cs.deep_view() + Seq::<Seq<u8>>::empty() =~= cs.deep_view());
    }
    if pos != s.len() {
        return None;
    }
    proof {
        assert forall|j: int| 0 <= j < cs.deep_view().len() implies #[trigger] cs.deep_view()[j].len()
            <= u64::MAX by {
            assert(cs.deep_view()[j] =~= cs@[j]@);
            assert(cs@[j].len() == cs@[j]@.len());
        }
        lemma_read_chunks_sound(s@, 8, count as nat);
        lemma_u64_from_le_inverse(s@.subrange(0, 8));
        assert(u64_le(cs.deep_view().len() as u64) == s@.subrange(0, 8));
        assert(enc_list(cs.deep_view()) =~= s@);
    }
    Some(cs)
}


/// One-byte chunk.
fn byte_chunk(b: u8) -> (r: Vec<u8>)
    ensures
        r@ == seq![b],
{
    let mut v: Vec<u8> = Vec::new();
    v.push(b);
    proof {
        assert(v@ =~= seq![b]);
    }
    v
}

/// Copy a byte vector into a chunk of its own.
fn bytes_chunk(v: &Vec<u8>) -> (r: Vec<u8>)
    ensures
        r@ == v@,
{
    vstd::slice::slice_to_vec(v.as_slice())
}

/// Relies on `String::from_utf8`: succeeds exactly on valid UTF-8 and
/// decodes those bytes.
#[verifier::external_body]
fn utf8_to_string(v: Vec<u8>) -> (r: Option<String>)
    ensures
        r is Some <==> vstd::utf8::valid_utf8(v@),
        r matches Some(s) ==> s@ == vstd::utf8::decode_utf8(v@),
{
    match String::from_utf8(v) {
        Ok(s) => Some(s),
        Err(_) => None,
    }
}

/// The wire byte of a status code.
pub open spec fn status_byte(st: Status) -> u8 {
    match st {
        Status::Success => 0,
        Status::Fail => 1,
        Status::Unimplemented => 2,
    }
}

fn status_to_byte(st: &Status) -> (r: u8)
    ensures
        r == status_byte(*st),
{
    match st {
        Status::Success => 0,
        Status::Fail => 1,
        Status::Unimplemented => 2,
    }
}

fn byte_to_status(b: u8) -> (r: Option<Status>)
    ensures
        r is Some <==> b <= 2,
        r matches Some(st) ==> status_byte(st) == b,
{
    if b == 0 {
        Some(Status::Success)
    } else if b == 1 {
        Some(Status::Fail)
    } else if b == 2 {
        Some(Status::Unimplemented)
    } else {
        None
    }
}

/// Pointwise reading of a vector-of-vectors view.
proof fn lemma_dv(v: Vec<Vec<u8>>)
    ensures
        v.deep_view().len() == v@.len(),
        forall|i: int| 0 <= i < v@.len() ==> #[trigger] v.deep_view()[i] == v@[i]@,
{
    assert forall|i: int| 0 <= i < v@.len() implies #[trigger] v.deep_view()[i] == v@[i]@ by {
        assert(v.deep_view()[i] =~= v@[i]@);
    }
}

/// The chunk list of a root-enclave message: a tag chunk, then the fields
/// in declaration order.
pub open spec fn chunks_of_root(m: NitroRootEnclaveMessage) -> Seq<Seq<u8>> {
    match m {
        NitroRootEnclaveMessage::Status(st) => seq![seq![0u8], seq![status_byte(st)]],
        NitroRootEnclaveMessage::FetchFirmwareVersion => seq![seq![1u8]],
        NitroRootEnclaveMessage::FirmwareVersion(s) => seq![seq![2u8], vstd::utf8::encode_utf8(s@)],
        NitroRootEnclaveMessage::SetCertChain(root, ca) => seq![seq![3u8], root@, ca@],
        NitroRootEnclaveMessage::NativeAttestation(n, id) => seq![
            seq![4u8],
            n@,
            u32_le(id as u32),
        ],
        NitroRootEnclaveMessage::TokenData(t, c) => seq![seq![5u8], t@, c@],
        NitroRootEnclaveMessage::StartProxy => seq![seq![6u8]],
        NitroRootEnclaveMessage::ChallengeData(n, id) => seq![seq![7u8], n@, u32_le(id as u32)],
        NitroRootEnclaveMessage::ProxyAttestation(t, id) => seq![seq![8u8], t@, u32_le(id as u32)],
        NitroRootEnclaveMessage::CertChain(certs) => seq![seq![9u8]] + certs.deep_view(),
        NitroRootEnclaveMessage::Success => seq![seq![10u8]],
    }
}

/// The wire bytes of a root-enclave message.
pub open spec fn enc_root(m: NitroRootEnclaveMessage) -> Seq<u8> {
    enc_list(chunks_of_root(m))
}

/// The chunk lists that decode as a root-enclave message.
pub open spec fn root_shape_ok(cs: Seq<Seq<u8>>) -> bool {
    cs.len() >= 1 && cs[0].len() == 1 && {
        let tag = cs[0][0];
        ||| (tag == 0 && cs.len() == 2 && cs[1].len() == 1 && cs[1][0] <= 2)
        ||| (tag == 1 && cs.len() == 1)
        ||| (tag == 2 && cs.len() == 2 && vstd::utf8::valid_utf8(cs[1]))
        ||| (tag == 3 && cs.len() == 3)
        ||| (tag == 4 && cs.len() == 3 && cs[2].len() == 4)
        ||| (tag == 5 && cs.len() == 3)
        ||| (tag == 6 && cs.len() == 1)
        ||| (tag == 7 && cs.len() == 3 && cs[2].len() == 4)
        ||| (tag == 8 && cs.len() == 3 && cs[2].len() == 4)
        ||| (tag == 9)
        ||| (tag == 10 && cs.len() == 1)
    }
}

/// Every root-enclave message has a decodable chunk list.
proof fn lemma_root_chunks_shape(m: NitroRootEnclaveMessage)
    ensures
        root_shape_ok(chunks_of_root(m)),
{
    match m {
        NitroRootEnclaveMessage::Status(st) => {
            assert(status_byte(st) <= 2);
        },
        NitroRootEnclaveMessage::FirmwareVersion(s) => {
            vstd::utf8::encode_utf8_valid_utf8(s@);
        },
        _ => {},
    }
}

#[verifier::loop_isolation(false)]
fn root_to_chunks(m: &NitroRootEnclaveMessage) -> (r: Vec<Vec<u8>>)
    ensures
        r.deep_view() == chunks_of_root(*m),
{
    let mut cs: Vec<Vec<u8>> = Vec::new();
    match m {
        NitroRootEnclaveMessage::Status(st) => {
            cs.push(byte_chunk(0));
            cs.push(byte_chunk(status_to_byte(st)));
            proof {
                lemma_dv(cs);
                assert(cs.deep_view() =~~= chunks_of_root(*m));
            }
        },
        NitroRootEnclaveMessage::FetchFirmwareVersion => {
            cs.push(byte_chunk(1));
            proof {
                lemma_dv(cs);
                assert(cs.deep_view() =~~= chunks_of_root(*m));
            }
        },
        NitroRootEnclaveMessage::FirmwareVersion(s) => {
            cs.push(byte_chunk(2));
            cs.push(s.as_str().as_bytes_vec());
            proof {
                lemma_dv(cs);
                assert(cs.deep_view() =~~= chunks_of_root(*m));
            }
        },
        NitroRootEnclaveMessage::SetCertChain(root, ca) => {
            cs.push(byte_chunk(3));
            cs.push(bytes_chunk(root));
            cs.push(bytes_chunk(ca));
            proof {
                lemma_dv(cs);
                assert(cs.deep_view() =~~= chunks_of_root(*m));
            }
        },
        NitroRootEnclaveMessage::NativeAttestation(n, id) => {
            cs.push(byte_chunk(4));
            cs.push(bytes_chunk(n));
            cs.push(u32_to_le_bytes(#[verifier::truncate] (*id as u32)));
            proof {
                lemma_dv(cs);
                assert(cs.deep_view() =~~= chunks_of_root(*m));
            }
        },
        NitroRootEnclaveMessage::TokenData(t, c) => {
            cs.push(byte_chunk(5));
            cs.push(bytes_chunk(t));
            cs.push(bytes_chunk(c));
            proof {
                lemma_dv(cs);
                assert(cs.deep_view() =~~= chunks_of_root(*m));
            }
        },
        NitroRootEnclaveMessage::StartProxy => {
            cs.push(byte_chunk(6));
            proof {
                lemma_dv(cs);
                assert(cs.deep_view() =~~= chunks_of_root(*m));
            }
        },
        NitroRootEnclaveMessage::ChallengeData(n, id) => {
            cs.push(byte_chunk(7));
            cs.push(bytes_chunk(n));
            cs.push(u32_to_le_bytes(#[verifier::truncate] (*id as u32)));
            proof {
                lemma_dv(cs);
                assert(cs.deep_view() =~~= chunks_of_root(*m));
            }
        },
        NitroRootEnclaveMessage::ProxyAttestation(t, id) => {
            cs.push(byte_chunk(8));
            cs.push(bytes_chunk(t));
            cs.push(u32_to_le_bytes(#[verifier::truncate] (*id as u32)));
            proof {
                lemma_dv(cs);
                assert(cs.deep_view() =~~= chunks_of_root(*m));
            }
        },
        NitroRootEnclaveMessage::CertChain(certs) => {
            cs.push(byte_chunk(9));
            let mut i: usize = 0;
            while i < certs.len()
                invariant
                    i <= certs@.len(),
                    cs.deep_view() =~~= seq![seq![9u8]] + certs.deep_view().take(i as int),
                decreases certs@.len() - i,
            {
                proof {
                    lemma_dv(*certs);
                }
                let ghost dv_before = cs.deep_view();
                cs.push(bytes_chunk(&certs[i]));
                proof {
                    assert(cs.deep_view() =~~= dv_before + seq![certs@[i as int]@]);
                    assert(cs.deep_view() =~~= seq![seq![9u8]] + certs.deep_view().take(i + 1));
                }
                i = i + 1;
            }
            proof {
                assert(certs.deep_view().take(certs@.len() as int) =~= certs.deep_view());
                assert(cs.deep_view() =~~= chunks_of_root(*m));
            }
        },
        NitroRootEnclaveMessage::Success => {
            cs.push(byte_chunk(10));
            proof {
                lemma_dv(cs);
                assert(cs.deep_view() =~~= chunks_of_root(*m));
            }
        },
    }
    cs
}

#[verifier::loop_isolation(false)]
#[verifier::rlimit(50)]
fn root_from_chunks(cs: &Vec<Vec<u8>>) -> (r: Option<NitroRootEnclaveMessage>)
    ensures
        r is Some <==> root_shape_ok(cs.deep_view()),
        r matches Some(m) ==> chunks_of_root(m) == cs.deep_view(),
{
    proof {
        lemma_dv(*cs);
    }
    let ghost dv = cs.deep_view();
    if cs.len() == 0 {
        return None;
    }
    if cs[0].len() != 1 {
        return None;
    }
    let tag = cs[0][0];
    proof {
        assert(dv[0] =~= seq![tag]);
    }
    match tag {
        0 => {
            if cs.len() != 2 || cs[1].len() != 1 {
                return None;
            }
            let b = cs[1][0];
            match byte_to_status(b) {
                None => None,
                Some(st) => {
                    proof {
                        assert(dv[1] =~= seq![b]);
                        assert(chunks_of_root(NitroRootEnclaveMessage::Status(st)) =~~= dv);
                    }
                    Some(NitroRootEnclaveMessage::Status(st))
                },
            }
        },
        1 => {
            if cs.len() != 1 {
                return None;
            }
            proof {
                assert(chunks_of_root(NitroRootEnclaveMessage::FetchFirmwareVersion) =~~= dv);
            }
            Some(NitroRootEnclaveMessage::FetchFirmwareVersion)
        },
        2 => {
            if cs.len() != 2 {
                return None;
            }
            match utf8_to_string(bytes_chunk(&cs[1])) {
                None => None,
                Some(s) => {
                    proof {
                        vstd::utf8::decode_utf8_encode_utf8(dv[1]);
                        assert(chunks_of_root(NitroRootEnclaveMessage::FirmwareVersion(s)) =~~= dv);
                    }
                    Some(NitroRootEnclaveMessage::FirmwareVersion(s))
                },
            }
        },
        3 => {
            if cs.len() != 3 {
                return None;
            }
            let m = NitroRootEnclaveMessage::SetCertChain(bytes_chunk(&cs[1]), bytes_chunk(&cs[2]));
            proof {
                assert(chunks_of_root(m) =~~= dv);
            }
            Some(m)
        },
        4 => {
            if cs.len() != 3 || cs[2].len() != 4 {
                return None;
            }
            let n = u32_from_le_bytes(cs[2].as_slice());
            let m = NitroRootEnclaveMessage::NativeAttestation(
                bytes_chunk(&cs[1]),
                #[verifier::truncate] (n as i32),
            );
            proof {
                lemma_u32_from_le_inverse(dv[2]);
                assert(((n as i32) as u32) == n) by (bit_vector);
                assert(chunks_of_root(m) =~~= dv);
            }
            Some(m)
        },
        5 => {
            if cs.len() != 3 {
                return None;
            }
            let m = NitroRootEnclaveMessage::TokenData(bytes_chunk(&cs[1]), bytes_chunk(&cs[2]));
            proof {
                assert(chunks_of_root(m) =~~= dv);
            }
            Some(m)
        },
        6 => {
            if cs.len() != 1 {
                return None;
            }
            proof {
                assert(chunks_of_root(NitroRootEnclaveMessage::StartProxy) =~~= dv);
            }
            Some(NitroRootEnclaveMessage::StartProxy)
        },
        7 => {
            if cs.len() != 3 || cs[2].len() != 4 {
                return None;
            }
            let n = u32_from_le_bytes(cs[2].as_slice());
            let m = NitroRootEnclaveMessage::ChallengeData(
                bytes_chunk(&cs[1]),
                #[verifier::truncate] (n as i32),
            );
            proof {
                lemma_u32_from_le_inverse(dv[2]);
                assert(((n as i32) as u32) == n) by (bit_vector);
                assert(chunks_of_root(m) =~~= dv);
            }
            Some(m)
        },
        8 => {
            if cs.len() != 3 || cs[2].len() != 4 {
                return None;
            }
            let n = u32_from_le_bytes(cs[2].as_slice());
            let m = NitroRootEnclaveMessage::ProxyAttestation(
                bytes_chunk(&cs[1]),
                #[verifier::truncate] (n as i32),
            );
            proof {
                lemma_u32_from_le_inverse(dv[2]);
                assert(((n as i32) as u32) == n) by (bit_vector);
                assert(chunks_of_root(m) =~~= dv);
            }
            Some(m)
        },
        9 => {
            let mut certs: Vec<Vec<u8>> = Vec::new();
            let mut k: usize = 1;
            proof {
                assert(certs.deep_view() =~= dv.subrange(1, 1));
            }
            while k < cs.len()
                invariant
                    1 <= k <= cs@.len(),
                    certs.deep_view() == dv.subrange(1, k as int),
                decreases cs@.len() - k,
            {
                let ghost dv_before = certs.deep_view();
                certs.push(bytes_chunk(&cs[k]));
                proof {
                    assert(certs.deep_view() =~~= dv_before + seq![dv[k as int]]);
                    assert(certs.deep_view() =~~= dv.subrange(1, k + 1));
                }
                k = k + 1;
            }
            let m = NitroRootEnclaveMessage::CertChain(certs);
            proof {
                assert(chunks_of_root(m) =~~= dv);
            }
            Some(m)
        },
        10 => {
            if cs.len() != 1 {
                return None;
            }
            proof {
                assert(chunks_of_root(NitroRootEnclaveMessage::Success) =~~= dv);
            }
            Some(NitroRootEnclaveMessage::Success)
        },
        _ => None,
    }
}

/// Serialize a root-enclave message.
pub fn encode_root_message(m: &NitroRootEnclaveMessage) -> (r: Vec<u8>)
    ensures
        r@ == enc_root(*m),
        chunks_wf(chunks_of_root(*m)),
{
    let cs = root_to_chunks(m);
    encode_chunks(&cs)
}

/// Parse wire bytes as a root-enclave message.
///
/// A successful parse returns a message that re-encodes to exactly the
/// input (no trailing bytes), and every encoded message parses.
pub fn decode_root_message(bytes: &[u8]) -> (r: Option<NitroRootEnclaveMessage>)
    ensures
        r matches Some(m) ==> enc_root(m) == bytes@ && chunks_wf(chunks_of_root(m)),
        forall|m: NitroRootEnclaveMessage|
            chunks_wf(chunks_of_root(m)) && enc_root(m) == bytes@ ==> r is Some,
{
    let cs = match decode_chunks(bytes) {
        Some(cs) => cs,
        None => {
            proof {
                assert forall|m: NitroRootEnclaveMessage|
                    chunks_wf(chunks_of_root(m)) && enc_root(m) == bytes@ implies false by {
                    lemma_dec_enc_list(chunks_of_root(m));
                }
            }
            return None;
        },
    };
    match root_from_chunks(&cs) {
        Some(m) => Some(m),
        None => {
            proof {
                assert forall|m: NitroRootEnclaveMessage|
                    chunks_wf(chunks_of_root(m)) && enc_root(m) == bytes@ implies false by {
                    lemma_dec_enc_list(chunks_of_root(m));
                    lemma_root_chunks_shape(m);
                }
            }
            None
        },
    }
}

/// The wire form determines the root-enclave message: encoding is
/// injective, so distinct messages never collide on the wire.
pub proof fn lemma_root_codec_injective(a: NitroRootEnclaveMessage, b: NitroRootEnclaveMessage)
    requires
        chunks_wf(chunks_of_root(a)),
        chunks_wf(chunks_of_root(b)),
        enc_root(a) == enc_root(b),
    ensures
        root_msg_eq(a, b),
{
    lemma_enc_list_injective(chunks_of_root(a), chunks_of_root(b));
    match (a, b) {
        (NitroRootEnclaveMessage::FirmwareVersion(s), NitroRootEnclaveMessage::FirmwareVersion(t)) => {
            vstd::utf8::encode_utf8_decode_utf8(s@);
            vstd::utf8::encode_utf8_decode_utf8(t@);
            assert(chunks_of_root(a)[1] == chunks_of_root(b)[1]);
        },
        (
            NitroRootEnclaveMessage::NativeAttestation(n, i),
            NitroRootEnclaveMessage::NativeAttestation(o, j),
        ) => {
            assert(chunks_of_root(a)[2] == chunks_of_root(b)[2]);
            lemma_u32_le_inverse(i as u32);
            lemma_u32_le_inverse(j as u32);
            lemma_i32_u32_inverse(i);
            lemma_i32_u32_inverse(j);
        },
        (
            NitroRootEnclaveMessage::ChallengeData(n, i),
            NitroRootEnclaveMessage::ChallengeData(o, j),
        ) => {
            assert(chunks_of_root(a)[2] == chunks_of_root(b)[2]);
            lemma_u32_le_inverse(i as u32);
            lemma_u32_le_inverse(j as u32);
            lemma_i32_u32_inverse(i);
            lemma_i32_u32_inverse(j);
        },
        (
            NitroRootEnclaveMessage::ProxyAttestation(t, i),
            NitroRootEnclaveMessage::ProxyAttestation(u, j),
        ) => {
            assert(chunks_of_root(a)[2] == chunks_of_root(b)[2]);
            lemma_u32_le_inverse(i as u32);
            lemma_u32_le_inverse(j as u32);
            lemma_i32_u32_inverse(i);
            lemma_i32_u32_inverse(j);
        },
        (NitroRootEnclaveMessage::CertChain(x), NitroRootEnclaveMessage::CertChain(y)) => {
            assert(x.deep_view() =~= chunks_of_root(a).subrange(1, chunks_of_root(a).len() as int));
            assert(y.deep_view() =~= chunks_of_root(b).subrange(1, chunks_of_root(b).len() as int));
        },
        (NitroRootEnclaveMessage::Status(x), NitroRootEnclaveMessage::Status(y)) => {
            assert(chunks_of_root(a)[1] == chunks_of_root(b)[1]);
            assert(seq![status_byte(x)][0] == seq![status_byte(y)][0]);
        },
        (
            NitroRootEnclaveMessage::SetCertChain(x1, x2),
            NitroRootEnclaveMessage::SetCertChain(y1, y2),
        ) => {
            assert(chunks_of_root(a)[1] == chunks_of_root(b)[1]);
            assert(chunks_of_root(a)[2] == chunks_of_root(b)[2]);
        },
        (NitroRootEnclaveMessage::TokenData(x1, x2), NitroRootEnclaveMessage::TokenData(y1, y2)) => {
            assert(chunks_of_root(a)[1] == chunks_of_root(b)[1]);
            assert(chunks_of_root(a)[2] == chunks_of_root(b)[2]);
        },
        _ => {
            assert(chunks_of_root(a)[0] == chunks_of_root(b)[0]);
            assert(chunks_of_root(a)[0][0] == chunks_of_root(b)[0][0]);
        },
    }
}


/// The chunk list of a runtime-manager request: a tag chunk, then the
/// fields in declaration order.
pub open spec fn chunks_of_request(m: RuntimeManagerRequest) -> Seq<Seq<u8>> {
    match m {
        RuntimeManagerRequest::RequestPolicyHash => seq![seq![0u8]],
        RuntimeManagerRequest::SendProgram(p, d) => seq![
            seq![1u8],
            vstd::utf8::encode_utf8(p@),
            d@,
        ],
        RuntimeManagerRequest::SendData(p, d) => seq![seq![2u8], vstd::utf8::encode_utf8(p@), d@],
        RuntimeManagerRequest::RequestCompute(p) => seq![seq![3u8], vstd::utf8::encode_utf8(p@)],
        RuntimeManagerRequest::ReadFile(p) => seq![seq![4u8], vstd::utf8::encode_utf8(p@)],
        RuntimeManagerRequest::RequestShutdown => seq![seq![5u8]],
    }
}

/// The wire bytes of a runtime-manager request.
pub open spec fn enc_request(m: RuntimeManagerRequest) -> Seq<u8> {
    enc_list(chunks_of_request(m))
}

/// The chunk lists that decode as a runtime-manager request.
pub open spec fn request_shape_ok(cs: Seq<Seq<u8>>) -> bool {
    cs.len() >= 1 && cs[0].len() == 1 && {
        let tag = cs[0][0];
        ||| (tag == 0 && cs.len() == 1)
        ||| (tag == 1 && cs.len() == 3 && vstd::utf8::valid_utf8(cs[1]))
        ||| (tag == 2 && cs.len() == 3 && vstd::utf8::valid_utf8(cs[1]))
        ||| (tag == 3 && cs.len() == 2 && vstd::utf8::valid_utf8(cs[1]))
        ||| (tag == 4 && cs.len() == 2 && vstd::utf8::valid_utf8(cs[1]))
        ||| (tag == 5 && cs.len() == 1)
    }
}

/// Every request has a decodable chunk list.
proof fn lemma_request_chunks_shape(m: RuntimeManagerRequest)
    ensures
        request_shape_ok(chunks_of_request(m)),
{
    match m {
        RuntimeManagerRequest::SendProgram(p, _) => {
            vstd::utf8::encode_utf8_valid_utf8(p@);
        },
        RuntimeManagerRequest::SendData(p, _) => {
            vstd::utf8::encode_utf8_valid_utf8(p@);
        },
        RuntimeManagerRequest::RequestCompute(p) => {
            vstd::utf8::encode_utf8_valid_utf8(p@);
        },
        RuntimeManagerRequest::ReadFile(p) => {
            vstd::utf8::encode_utf8_valid_utf8(p@);
        },
        _ => {},
    }
}

fn request_to_chunks(m: &RuntimeManagerRequest) -> (r: Vec<Vec<u8>>)
    ensures
        r.deep_view() == chunks_of_request(*m),
{
    let mut cs: Vec<Vec<u8>> = Vec::new();
    match m {
        RuntimeManagerRequest::RequestPolicyHash => {
            cs.push(byte_chunk(0));
            proof {
                lemma_dv(cs);
                assert(cs.deep_view() =~~= chunks_of_request(*m));
            }
        },
        RuntimeManagerRequest::SendProgram(p, d) => {
            cs.push(byte_chunk(1));
            cs.push(p.as_str().as_bytes_vec());
            cs.push(bytes_chunk(d));
            proof {
                lemma_dv(cs);
                assert(cs.deep_view() =~~= chunks_of_request(*m));
            }
        },
        RuntimeManagerRequest::SendData(p, d) => {
            cs.push(byte_chunk(2));
            cs.push(p.as_str().as_bytes_vec());
            cs.push(bytes_chunk(d));
            proof {
                lemma_dv(cs);
                assert(cs.deep_view() =~~= chunks_of_request(*m));
            }
        },
        RuntimeManagerRequest::RequestCompute(p) => {
            cs.push(byte_chunk(3));
            cs.push(p.as_str().as_bytes_vec());
            proof {
                lemma_dv(cs);
                assert(cs.deep_view() =~~= chunks_of_request(*m));
            }
        },
        RuntimeManagerRequest::ReadFile(p) => {
            cs.push(byte_chunk(4));
            cs.push(p.as_str().as_bytes_vec());
            proof {
                lemma_dv(cs);
                assert(cs.deep_view() =~~= chunks_of_request(*m));
            }
        },
        RuntimeManagerRequest::RequestShutdown => {
            cs.push(byte_chunk(5));
            proof {
                lemma_dv(cs);
                assert(cs.deep_view() =~~= chunks_of_request(*m));
            }
        },
    }
    cs
}

#[verifier::rlimit(50)]
fn request_from_chunks(cs: &Vec<Vec<u8>>) -> (r: Option<RuntimeManagerRequest>)
    ensures
        r is Some <==> request_shape_ok(cs.deep_view()),
        r matches Some(m) ==> chunks_of_request(m) == cs.deep_view(),
{
    proof {
        lemma_dv(*cs);
    }
    let ghost dv = cs.deep_view();
    if cs.len() == 0 {
        return None;
    }
    if cs[0].len() != 1 {
        return None;
    }
    let tag = cs[0][0];
    proof {
        assert(dv[0] =~= seq![tag]);
    }
    match tag {
        0 => {
            if cs.len() != 1 {
                return None;
            }
            proof {
                assert(chunks_of_request(RuntimeManagerRequest::RequestPolicyHash) =~~= dv);
            }
            Some(RuntimeManagerRequest::RequestPolicyHash)
        },
        1 => {
            if cs.len() != 3 {
                return None;
            }
            match utf8_to_string(bytes_chunk(&cs[1])) {
                None => None,
                Some(p) => {
                    let m = RuntimeManagerRequest::SendProgram(p, bytes_chunk(&cs[2]));
                    proof {
                        vstd::utf8::decode_utf8_encode_utf8(dv[1]);
                        assert(chunks_of_request(m) =~~= dv);
                    }
                    Some(m)
                },
            }
        },
        2 => {
            if cs.len() != 3 {
                return None;
            }
            match utf8_to_string(bytes_chunk(&cs[1])) {
                None => None,
                Some(p) => {
                    let m = RuntimeManagerRequest::SendData(p, bytes_chunk(&cs[2]));
                    proof {
                        vstd::utf8::decode_utf8_encode_utf8(dv[1]);
                        assert(chunks_of_request(m) =~~= dv);
                    }
                    Some(m)
                },
            }
        },
        3 => {
            if cs.len() != 2 {
                return None;
            }
            match utf8_to_string(bytes_chunk(&cs[1])) {
                None => None,
                Some(p) => {
                    let m = RuntimeManagerRequest::RequestCompute(p);
                    proof {
                        vstd::utf8::decode_utf8_encode_utf8(dv[1]);
                        assert(chunks_of_request(m) =~~= dv);
                    }
                    Some(m)
                },
            }
        },
        4 => {
            if cs.len() != 2 {
                return None;
            }
            match utf8_to_string(bytes_chunk(&cs[1])) {
                None => None,
                Some(p) => {
                    let m = RuntimeManagerRequest::ReadFile(p);
                    proof {
                        vstd::utf8::decode_utf8_encode_utf8(dv[1]);
                        assert(chunks_of_request(m) =~~= dv);
                    }
                    Some(m)
                },
            }
        },
        5 => {
            if cs.len() != 1 {
                return None;
            }
            proof {
                assert(chunks_of_request(RuntimeManagerRequest::RequestShutdown) =~~= dv);
            }
            Some(RuntimeManagerRequest::RequestShutdown)
        },
        _ => None,
    }
}

/// Serialize a runtime-manager request.
pub fn encode_request(m: &RuntimeManagerRequest) -> (r: Vec<u8>)
    ensures
        r@ == enc_request(*m),
        chunks_wf(chunks_of_request(*m)),
{
    let cs = request_to_chunks(m);
    encode_chunks(&cs)
}

/// Parse wire bytes as a runtime-manager request.
///
/// A successful parse returns a request that re-encodes to exactly the
/// input, and every encoded request parses.
pub fn decode_request(bytes: &[u8]) -> (r: Option<RuntimeManagerRequest>)
    ensures
        r matches Some(m) ==> enc_request(m) == bytes@ && chunks_wf(chunks_of_request(m)),
        forall|m: RuntimeManagerRequest|
            chunks_wf(chunks_of_request(m)) && enc_request(m) == bytes@ ==> r is Some,
{
    let cs = match decode_chunks(bytes) {
        Some(cs) => cs,
        None => {
            proof {
                assert forall|m: RuntimeManagerRequest|
                    chunks_wf(chunks_of_request(m)) && enc_request(m) == bytes@ implies false by {
                    lemma_dec_enc_list(chunks_of_request(m));
                }
            }
            return None;
        },
    };
    match request_from_chunks(&cs) {
        Some(m) => Some(m),
        None => {
            proof {
                assert forall|m: RuntimeManagerRequest|
                    chunks_wf(chunks_of_request(m)) && enc_request(m) == bytes@ implies false by {
                    lemma_dec_enc_list(chunks_of_request(m));
                    lemma_request_chunks_shape(m);
                }
            }
            None
        },
    }
}

/// The wire form determines the request: encoding is injective.
pub proof fn lemma_request_codec_injective(a: RuntimeManagerRequest, b: RuntimeManagerRequest)
    requires
        chunks_wf(chunks_of_request(a)),
        chunks_wf(chunks_of_request(b)),
        enc_request(a) == enc_request(b),
    ensures
        request_eq(a, b),
{
    lemma_enc_list_injective(chunks_of_request(a), chunks_of_request(b));
    match (a, b) {
        (RuntimeManagerRequest::SendProgram(p, d), RuntimeManagerRequest::SendProgram(q, e)) => {
            vstd::utf8::encode_utf8_decode_utf8(p@);
            vstd::utf8::encode_utf8_decode_utf8(q@);
            assert(chunks_of_request(a)[1] == chunks_of_request(b)[1]);
            assert(chunks_of_request(a)[2] == chunks_of_request(b)[2]);
        },
        (RuntimeManagerRequest::SendData(p, d), RuntimeManagerRequest::SendData(q, e)) => {
            vstd::utf8::encode_utf8_decode_utf8(p@);
            vstd::utf8::encode_utf8_decode_utf8(q@);
            assert(chunks_of_request(a)[1] == chunks_of_request(b)[1]);
            assert(chunks_of_request(a)[2] == chunks_of_request(b)[2]);
        },
        (RuntimeManagerRequest::RequestCompute(p), RuntimeManagerRequest::RequestCompute(q)) => {
            vstd::utf8::encode_utf8_decode_utf8(p@);
            vstd::utf8::encode_utf8_decode_utf8(q@);
            assert(chunks_of_request(a)[1] == chunks_of_request(b)[1]);
        },
        (RuntimeManagerRequest::ReadFile(p), RuntimeManagerRequest::ReadFile(q)) => {
            vstd::utf8::encode_utf8_decode_utf8(p@);
            vstd::utf8::encode_utf8_decode_utf8(q@);
            assert(chunks_of_request(a)[1] == chunks_of_request(b)[1]);
        },
        _ => {
            assert(chunks_of_request(a)[0] == chunks_of_request(b)[0]);
            assert(chunks_of_request(a)[0][0] == chunks_of_request(b)[0][0]);
        },
    }
}

/// The chunk list of a runtime-manager reply: the status chunk, then the
/// payload kind and bytes, if any.
pub open spec fn chunks_of_response(m: RuntimeManagerResponse) -> Seq<Seq<u8>> {
    seq![seq![status_byte(m.status)]] + match m.payload {
        None => seq![],
        Some(ResponsePayload::PolicyHash(v)) => seq![seq![0u8], v@],
        Some(ResponsePayload::ResultData(v)) => seq![seq![1u8], v@],
    }
}

/// The wire bytes of a runtime-manager reply.
pub open spec fn enc_response(m: RuntimeManagerResponse) -> Seq<u8> {
    enc_list(chunks_of_response(m))
}

/// The chunk lists that decode as a runtime-manager reply.
pub open spec fn response_shape_ok(cs: Seq<Seq<u8>>) -> bool {
    cs.len() >= 1 && cs[0].len() == 1 && cs[0][0] <= 2 && (cs.len() == 1 || (cs.len() == 3
        && cs[1].len() == 1 && cs[1][0] <= 1))
}

/// Every reply has a decodable chunk list.
proof fn lemma_response_chunks_shape(m: RuntimeManagerResponse)
    ensures
        response_shape_ok(chunks_of_response(m)),
{
    assert(status_byte(m.status) <= 2);
}

fn response_to_chunks(m: &RuntimeManagerResponse) -> (r: Vec<Vec<u8>>)
    ensures
        r.deep_view() == chunks_of_response(*m),
{
    let mut cs: Vec<Vec<u8>> = Vec::new();
    cs.push(byte_chunk(status_to_byte(&m.status)));
    match &m.payload {
        None => {
            proof {
                lemma_dv(cs);
                assert(cs.deep_view() =~~= chunks_of_response(*m));
            }
        },
        Some(ResponsePayload::PolicyHash(v)) => {
            cs.push(byte_chunk(0));
            cs.push(bytes_chunk(v));
            proof {
                lemma_dv(cs);
                assert(cs.deep_view() =~~= chunks_of_response(*m));
            }
        },
        Some(ResponsePayload::ResultData(v)) => {
            cs.push(byte_chunk(1));
            cs.push(bytes_chunk(v));
            proof {
                lemma_dv(cs);
                assert(cs.deep_view() =~~= chunks_of_response(*m));
            }
        },
    }
    cs
}

fn response_from_chunks(cs: &Vec<Vec<u8>>) -> (r: Option<RuntimeManagerResponse>)
    ensures
        r is Some <==> response_shape_ok(cs.deep_view()),
        r matches Some(m) ==> chunks_of_response(m) == cs.deep_view(),
{
    proof {
        lemma_dv(*cs);
    }
    let ghost dv = cs.deep_view();
    if cs.len() == 0 {
        return None;
    }
    if cs[0].len() != 1 {
        return None;
    }
    let st = match byte_to_status(cs[0][0]) {
        Some(st) => st,
        None => {
            return None;
        },
    };
    proof {
        assert(dv[0] =~= seq![status_byte(st)]);
    }
    if cs.len() == 1 {
        let m = RuntimeManagerResponse { status: st, payload: None };
        proof {
            assert(chunks_of_response(m) =~~= dv);
        }
        return Some(m);
    }
    if cs.len() != 3 || cs[1].len() != 1 {
        return None;
    }
    let kind = cs[1][0];
    if kind > 1 {
        return None;
    }
    proof {
        assert(dv[1] =~= seq![kind]);
    }
    let data = bytes_chunk(&cs[2]);
    let m = if kind == 0 {
        RuntimeManagerResponse { status: st, payload: Some(ResponsePayload::PolicyHash(data)) }
    } else {
        RuntimeManagerResponse { status: st, payload: Some(ResponsePayload::ResultData(data)) }
    };
    proof {
        assert(chunks_of_response(m) =~~= dv);
    }
    Some(m)
}

/// Serialize a runtime-manager reply.
pub fn encode_response(m: &RuntimeManagerResponse) -> (r: Vec<u8>)
    ensures
        r@ == enc_response(*m),
        chunks_wf(chunks_of_response(*m)),
{
    let cs = response_to_chunks(m);
    encode_chunks(&cs)
}

/// Parse wire bytes as a runtime-manager reply.
///
/// A successful parse returns a reply that re-encodes to exactly the
/// input, and every encoded reply parses.
pub fn decode_response(bytes: &[u8]) -> (r: Option<RuntimeManagerResponse>)
    ensures
        r matches Some(m) ==> enc_response(m) == bytes@ && chunks_wf(chunks_of_response(m)),
        forall|m: RuntimeManagerResponse|
            chunks_wf(chunks_of_response(m)) && enc_response(m) == bytes@ ==> r is Some,
{
    let cs = match decode_chunks(bytes) {
        Some(cs) => cs,
        None => {
            proof {
                assert forall|m: RuntimeManagerResponse|
                    chunks_wf(chunks_of_response(m)) && enc_response(m) == bytes@ implies false by {
                    lemma_dec_enc_list(chunks_of_response(m));
                }
            }
            return None;
        },
    };
    match response_from_chunks(&cs) {
        Some(m) => Some(m),
        None => {
            proof {
                assert forall|m: RuntimeManagerResponse|
                    chunks_wf(chunks_of_response(m)) && enc_response(m) == bytes@ implies false by {
                    lemma_dec_enc_list(chunks_of_response(m));
                    lemma_response_chunks_shape(m);
                }
            }
            None
        },
    }
}

/// The wire form determines the reply: encoding is injective.
pub proof fn lemma_response_codec_injective(a: RuntimeManagerResponse, b: RuntimeManagerResponse)
    requires
        chunks_wf(chunks_of_response(a)),
        chunks_wf(chunks_of_response(b)),
        enc_response(a) == enc_response(b),
    ensures
        response_eq(a, b),
{
    lemma_enc_list_injective(chunks_of_response(a), chunks_of_response(b));
    assert(chunks_of_response(a)[0] == chunks_of_response(b)[0]);
    assert(chunks_of_response(a)[0][0] == chunks_of_response(b)[0][0]);
    assert(chunks_of_response(a).len() == chunks_of_response(b).len());
    match (a.payload, b.payload) {
        (Some(ResponsePayload::PolicyHash(x)), Some(ResponsePayload::PolicyHash(y))) => {
            assert(chunks_of_response(a)[2] == chunks_of_response(b)[2]);
        },
        (Some(ResponsePayload::ResultData(x)), Some(ResponsePayload::ResultData(y))) => {
            assert(chunks_of_response(a)[2] == chunks_of_response(b)[2]);
        },
        _ => {
            if a.payload is Some && b.payload is Some {
                assert(chunks_of_response(a)[1] == chunks_of_response(b)[1]);
                assert(chunks_of_response(a)[1][0] == chunks_of_response(b)[1][0]);
            }
        },
    }
}


/// Frame one transport message: the payload's length as eight
/// little-endian bytes, then the payload.
pub fn frame_message(payload: &[u8]) -> (r: Vec<u8>)
    ensures
        r@ == lp(payload@),
{
    let mut out = u64_to_le_bytes(payload.len() as u64);
    out.extend_from_slice(payload);
    proof {
        assert(out@ =~= lp(payload@));
    }
    out
}

/// Unframe one transport message: succeeds exactly when the buffer is a
/// whole frame, declared length matching the remaining bytes.
pub fn unframe_message(bytes: &[u8]) -> (r: Option<Vec<u8>>)
    ensures
        r matches Some(p) ==> bytes@ == lp(p@),
        r is None ==> forall|p: Seq<u8>| p.len() <= u64::MAX ==> lp(p) != bytes@,
{
    match get_chunk(bytes, 0) {
        Some((c, q)) => {
            if q == bytes.len() {
                proof {
                    lemma_u64_from_le_inverse(bytes@.subrange(0, 8));
                    assert(u64_le(c@.len() as u64) == bytes@.subrange(0, 8));
                    assert(bytes@ =~= lp(c@));
                }
                Some(c)
            } else {
                proof {
                    assert forall|p: Seq<u8>| p.len() <= u64::MAX implies lp(p) != bytes@ by {
                        if lp(p) == bytes@ {
                            lemma_read_chunk_of_lp(Seq::empty(), p, Seq::empty());
                            assert(Seq::<u8>::empty() + lp(p) + Seq::<u8>::empty() =~= lp(p));
                        }
                    }
                }
                None
            }
        },
        None => {
            proof {
                assert forall|p: Seq<u8>| p.len() <= u64::MAX implies lp(p) != bytes@ by {
                    if lp(p) == bytes@ {
                        lemma_read_chunk_of_lp(Seq::empty(), p, Seq::empty());
                        assert(Seq::<u8>::empty() + lp(p) + Seq::<u8>::empty() =~= lp(p));
                    }
                }
            }
            None
        },
    }
}

} // verus!
