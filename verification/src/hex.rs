//! Hex encoding and decoding of byte strings.
//!
//! Runtime hashes travel as lower-case hex in the policy, and the policy
//! fingerprint is the hex form of a digest, so both directions carry exact
//! contracts here.

use vstd::prelude::*;

verus! {

/// ASCII code of the lower-case hex digit for a nibble.
pub open spec fn hex_digit(n: u8) -> u8
    recommends
        n < 16,
{
    if n < 10 {
        (48 + n) as u8
    } else {
        (87 + n) as u8
    }
}

/// The ASCII hex encoding of a byte string, two digits per byte.
pub open spec fn hex_ascii(data: Seq<u8>) -> Seq<u8> {
    Seq::new(
        data.len() * 2,
        |i: int|
            if i % 2 == 0 {
                hex_digit(data[i / 2] >> 4)
            } else {
                hex_digit(data[i / 2] & 0x0f)
            },
    )
}

/// The hex encoding of a byte string, as characters.
pub open spec fn hex_chars(data: Seq<u8>) -> Seq<char> {
    hex_ascii(data).map_values(|b: u8| b as char)
}

fn hex_digit_exec(n: u8) -> (r: u8)
    requires
        n < 16,
    ensures
        r == hex_digit(n),
{
    if n < 10 {
        48 + n
    } else {
        87 + n
    }
}

/// Relies on `String::from_utf8`: bytes below 0x80 decode one-for-one into
/// the chars with the same code points.
#[verifier::external_body]
fn ascii_to_string(v: Vec<u8>) -> (r: String)
    requires
        forall|i: int| 0 <= i < v@.len() ==> v@[i] < 0x80,
    ensures
        r@ == v@.map_values(|b: u8| b as char),
{
    String::from_utf8(v).unwrap_or_default()
}

/// Render a byte string as lower-case hex, two digits per byte.
pub fn print_hex(data: &[u8]) -> (r: String)
    ensures
        r@ == hex_chars(data@),
{
    let mut v: Vec<u8> = Vec::new();
    let mut i: usize = 0;
    while i < data.len()
        invariant
            i <= data@.len(),
            v@.len() == 2 * i,
            forall|j: int| 0 <= j < v@.len() ==> v@[j] == hex_ascii(data@)[j],
        decreases data@.len() - i,
    {
        let b = data[i];
        proof {
            assert((b >> 4) < 16 && (b & 0x0f) < 16) by (bit_vector);
        }
        v.push(hex_digit_exec(b >> 4));
        v.push(hex_digit_exec(b & 0x0f));
        i = i + 1;
    }
    proof {
        assert(v@ =~= hex_ascii(data@));
        assert forall|j: int| 0 <= j < v@.len() implies v@[j] < 0x80 by {
            let b = data@[j / 2];
            assert((b >> 4) < 16 && (b & 0x0f) < 16) by (bit_vector);
        }
    }
    ascii_to_string(v)
}

/// Is this byte an ASCII hex digit (either case)?
pub open spec fn is_hex_digit(b: u8) -> bool {
    (48 <= b < 58) || (65 <= b < 71) || (97 <= b < 103)
}

/// The value of one hex digit.
pub open spec fn hex_val(b: u8) -> u8
    recommends
        is_hex_digit(b),
{
    if b < 58 {
        (b - 48) as u8
    } else if b < 71 {
        (b - 55) as u8
    } else {
        (b - 87) as u8
    }
}

/// A byte string is well-formed hex when its length is even and every byte
/// is a hex digit.
pub open spec fn valid_hex(s: Seq<u8>) -> bool {
    s.len() % 2 == 0 && forall|i: int| 0 <= i < s.len() ==> is_hex_digit(s[i])
}

/// The bytes a well-formed hex string denotes.
pub open spec fn hex_value(s: Seq<u8>) -> Seq<u8>
    recommends
        valid_hex(s),
{
    Seq::new(s.len() / 2, |i: int| (hex_val(s[2 * i]) * 16 + hex_val(s[2 * i + 1])) as u8)
}

fn hex_val_exec(b: u8) -> (r: Option<u8>)
    ensures
        r is Some <==> is_hex_digit(b),
        r is Some ==> r->0 == hex_val(b) && r->0 < 16,
{
    if 48 <= b && b < 58 {
        Some(b - 48)
    } else if 65 <= b && b < 71 {
        Some(b - 55)
    } else if 97 <= b && b < 103 {
        Some(b - 87)
    } else {
        None
    }
}

/// Decode an ASCII hex string into bytes.
///
/// Succeeds exactly on well-formed hex (even length, digits of either
/// case), and then returns exactly the denoted bytes.
pub fn hex_decode(s: &[u8]) -> (r: Option<Vec<u8>>)
    ensures
        r is Some <==> valid_hex(s@),
        r is Some ==> r->0@ == hex_value(s@),
{
    if s.len() % 2 != 0 {
        return None;
    }
    let mut out: Vec<u8> = Vec::new();
    let mut i: usize = 0;
    while i < s.len()
        invariant
            s@.len() % 2 == 0,
            i % 2 == 0,
            i <= s@.len(),
            forall|j: int| 0 <= j < i ==> is_hex_digit(s@[j]),
            out@.len() == i / 2,
            forall|j: int| 0 <= j < out@.len() ==> out@[j] == hex_value(s@)[j],
        decreases s@.len() - i,
    {
        let hi = match hex_val_exec(s[i]) {
            Some(x) => x,
            None => {
                return None;
            },
        };
        let lo = match hex_val_exec(s[i + 1]) {
            Some(x) => x,
            None => {
                return None;
            },
        };
        out.push(hi * 16 + lo);
        i = i + 2;
    }
    Some(out)
}

} // verus!
