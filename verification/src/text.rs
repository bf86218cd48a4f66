use vstd::prelude::*;

verus! {

/// A character the library accepts inside an account identifier: printable
/// ASCII with no JSON escapes, so identifiers embed verbatim both in the
/// length-prefixed binary form and in a JSON string.
pub open spec fn text_char(c: char) -> bool {
    '\u{20}' <= c && c < '\u{7f}' && c != '"' && c != '\\'
}

/// Text this library can carry as an account identifier: every character is
/// safe and the length fits the 32-bit length prefix of the binary form.
pub open spec fn wf_text(s: Seq<char>) -> bool {
    s.len() <= u32::MAX && forall|i: int| 0 <= i < s.len() ==> #[trigger] text_char(s[i])
}

/// The byte form of a safe character.
pub open spec fn text_byte(b: u8) -> bool {
    0x20 <= b && b < 0x7f && b != 0x22 && b != 0x5c
}

/// ASCII text as bytes, one byte per character.
pub open spec fn text_bytes(s: Seq<char>) -> Seq<u8> {
    s.map_values(|c: char| c as u8)
}

/// ASCII bytes as text, one character per byte.
pub open spec fn bytes_chars(b: Seq<u8>) -> Seq<char> {
    b.map_values(|x: u8| x as char)
}

/// Relies on String::from_utf8: bytes below 0x80 are ASCII, hence valid
/// UTF-8, and decode to the characters with the same code points.
#[verifier::external_body]
pub(crate) fn string_from_ascii(v: Vec<u8>) -> (r: String)
    requires
        forall|i: int| 0 <= i < v@.len() ==> v@[i] < 0x80,
    ensures
        r@ == bytes_chars(v@),
{
    match String::from_utf8(v) {
        Ok(s) => s,
        Err(_) => String::new(),
    }
}

/// The decimal digits of an unsigned value, most significant first, with no
/// leading zero except for the value zero itself.
pub open spec fn dec_bytes(x: u128) -> Seq<u8>
    decreases x,
{
    if x < 10 {
        seq![(x + 48) as u8]
    } else {
        dec_bytes(x / 10).push((x % 10 + 48) as u8)
    }
}

/// The decimal rendering of an unsigned value as text.
pub open spec fn dec_chars(x: u128) -> Seq<char> {
    bytes_chars(dec_bytes(x))
}

/// Every byte of a decimal rendering is an ASCII digit.
pub proof fn lemma_dec_bytes_digits(x: u128)
    ensures
        forall|i: int| 0 <= i < dec_bytes(x).len() ==> 48 <= #[trigger] dec_bytes(x)[i] <= 57,
    decreases x,
{
    if x >= 10 {
        lemma_dec_bytes_digits(x / 10);
        assert forall|i: int| 0 <= i < dec_bytes(x).len() implies 48 <= #[trigger] dec_bytes(x)[i]
            <= 57 by {
            if i < dec_bytes(x).len() - 1 {
                assert(dec_bytes(x)[i] == dec_bytes(x / 10)[i]);
            }
        }
    }
}

fn dec_digits(x: u128) -> (r: Vec<u8>)
    ensures
        r@ == dec_bytes(x),
    decreases x,
{
    if x < 10 {
        let mut v: Vec<u8> = Vec::new();
        v.push((x as u8) + 48);
        proof {
            assert(v@ =~= dec_bytes(x));
        }
        v
    } else {
        let mut v = dec_digits(x / 10);
        v.push(((x % 10) as u8) + 48);
        v
    }
}

/// Renders an unsigned 128-bit value as decimal text.
pub fn u128_to_dec(x: u128) -> (r: String)
    ensures
        r@ == dec_chars(x),
{
    let v = dec_digits(x);
    proof {
        lemma_dec_bytes_digits(x);
    }
    string_from_ascii(v)
}

/// Renders an unsigned 64-bit value as decimal text.
pub fn u64_to_dec(x: u64) -> (r: String)
    ensures
        r@ == dec_chars(x as u128),
{
    u128_to_dec(x as u128)
}

} // verus!
