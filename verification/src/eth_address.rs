use vstd::prelude::*;
use vstd::string::StrSliceExecFns;
use crate::error::CodecError;

verus! {

/// A hexadecimal digit, upper or lower case.
pub open spec fn is_hex_char(c: char) -> bool {
    ('0' <= c && c <= '9') || ('a' <= c && c <= 'f') || ('A' <= c && c <= 'F')
}

/// Hex text that a decoder accepts: an even number of hexadecimal digits.
pub open spec fn valid_hex(s: Seq<char>) -> bool {
    s.len() % 2 == 0 && forall|i: int| 0 <= i < s.len() ==> #[trigger] is_hex_char(s[i])
}

/// The value of one hexadecimal digit.
pub open spec fn hex_char_val(c: char) -> u8
    recommends
        is_hex_char(c),
{
    if '0' <= c && c <= '9' {
        (c as u32 - 48) as u8
    } else if 'a' <= c && c <= 'f' {
        (c as u32 - 87) as u8
    } else {
        (c as u32 - 55) as u8
    }
}

/// The lowercase hexadecimal digit for a value below 16.
pub open spec fn hex_digit_char(d: u8) -> char
    recommends
        d < 16,
{
    if d < 10 {
        ((d + 48) as u8) as char
    } else {
        ((d + 87) as u8) as char
    }
}

/// The lowercase hex rendering of a byte sequence: two digits per byte, most
/// significant nibble first.
pub open spec fn hex_chars(b: Seq<u8>) -> Seq<char> {
    Seq::new(
        2 * b.len(),
        |i: int| if i % 2 == 0 {
            hex_digit_char(b[i / 2] / 16)
        } else {
            hex_digit_char(b[i / 2] % 16)
        },
    )
}

/// The bytes denoted by hex text: each pair of digits is one byte.
pub open spec fn hex_decode_chars(s: Seq<char>) -> Seq<u8>
    recommends
        valid_hex(s),
{
    Seq::new(s.len() / 2, |i: int| (hex_char_val(s[2 * i]) * 16 + hex_char_val(s[2 * i + 1])) as u8)
}

/// Hex text with an optional leading `0x` marker removed.
pub open spec fn strip_0x(s: Seq<char>) -> Seq<char> {
    if s.len() >= 2 && s[0] == '0' && s[1] == 'x' {
        s.skip(2)
    } else {
        s
    }
}

/// A fixed 20-byte address on the Ethereum side of the bridge.
#[derive(Debug, Clone)]
pub struct EthAddress(pub Vec<u8>);

impl View for EthAddress {
    type V = Seq<u8>;

    open spec fn view(&self) -> Seq<u8> {
        self.0@
    }
}

impl PartialEq for EthAddress {
    fn eq(&self, other: &EthAddress) -> (r: bool) {
        let r = self.0 == other.0;
        proof {
            if r {
                assert(self.0@ =~= other.0@);
            }
        }
        r
    }
}

impl vstd::std_specs::cmp::PartialEqSpecImpl for EthAddress {
    open spec fn obeys_eq_spec() -> bool {
        true
    }

    open spec fn eq_spec(&self, other: &EthAddress) -> bool {
        self@ == other@
    }
}

impl EthAddress {
    /// A well-formed address holds exactly 20 bytes.
    pub open spec fn wf(&self) -> bool {
        self@.len() == 20
    }

    /// Builds an address from raw bytes; any byte count other than 20 is
    /// rejected, never truncated or padded.
    pub fn from_bytes(bytes: Vec<u8>) -> (r: Result<EthAddress, CodecError>)
        ensures
            bytes@.len() == 20 ==> (r matches Ok(a) && a@ == bytes@ && a.wf()),
            bytes@.len() != 20 ==> r == Err::<EthAddress, CodecError>(CodecError::InvalidLength),
    {
        if bytes.len() == 20 {
            Ok(EthAddress(bytes))
        } else {
            Err(CodecError::InvalidLength)
        }
    }

    /// The lowercase hex rendering, two digits per byte, no `0x` marker.
    pub fn to_hex(&self) -> (r: String)
        ensures
            r@ == hex_chars(self@),
            r@.len() == 2 * self@.len(),
    {
        hex_encode(self.0.as_slice())
    }
}

impl EthAddress {
    /// Parses hex text into an address: an optional leading `0x` is
    /// accepted, the digits may be either case, and the decoded byte count
    /// must be exactly 20.
    pub fn parse_hex(text: &str) -> (r: Result<EthAddress, CodecError>)
        ensures
            ({
                let t = strip_0x(text@);
                &&& (valid_hex(t) && t.len() == 40) ==> (r matches Ok(a) && a@ == hex_decode_chars(
                    t,
                ) && a.wf())
                &&& !valid_hex(t) ==> r == Err::<EthAddress, CodecError>(CodecError::InvalidEncoding)
                &&& (valid_hex(t) && t.len() != 40) ==> r == Err::<EthAddress, CodecError>(
                    CodecError::InvalidLength,
                )
            }),
    {
        if !text.is_ascii() {
            proof {
                let s = text@;
                let i = choose|i: int| !(0 <= i < s.len() ==> '\0' <= #[trigger] s[i] <= '\u{7f}');
                assert(!is_hex_char(s[i]));
                if s.len() >= 2 && s[0] == '0' && s[1] == 'x' {
                    assert(strip_0x(s)[i - 2] == s[i]);
                } else {
                    assert(strip_0x(s)[i] == s[i]);
                }
            }
            return Err(CodecError::InvalidEncoding);
        }
        let n = text.unicode_len();
        let stripped: &str = if n >= 2 && text.get_char(0) == '0' && text.get_char(1) == 'x' {
            let rest = text.substring_ascii(2, n);
            proof {
                assert(rest@ =~= strip_0x(text@));
            }
            rest
        } else {
            proof {
                assert(text@ =~= strip_0x(text@));
            }
            text
        };
        match hex_decode(stripped) {
            None => Err(CodecError::InvalidEncoding),
            Some(v) => {
                if v.len() == 20 {
                    Ok(EthAddress(v))
                } else {
                    Err(CodecError::InvalidLength)
                }
            },
        }
    }
}

/// Parses hex text that is already known to hold exactly 40 hexadecimal
/// digits after an optional leading `0x` marker, into an address.
pub fn get_eth_address(address: String) -> (r: EthAddress)
    requires
        strip_0x(address@).len() == 40,
        forall|i: int|
            0 <= i < strip_0x(address@).len() ==> #[trigger] is_hex_char(strip_0x(address@)[i]),
    ensures
        r@ == hex_decode_chars(strip_0x(address@)),
        r.wf(),
{
    match EthAddress::parse_hex(address.as_str()) {
        Ok(a) => a,
        Err(_) => vstd::pervasive::unreached(),
    }
}

/// One hexadecimal digit maps to a digit character and back to its value.
proof fn lemma_hex_digit_char_val(d: u8)
    requires
        d < 16,
    ensures
        is_hex_char(hex_digit_char(d)),
        hex_char_val(hex_digit_char(d)) == d,
        hex_digit_char(d) != 'x',
{
}

/// Rendering bytes as lowercase hex and decoding the digits again returns the
/// same bytes; the rendering is always valid hex of twice the byte count, and
/// never begins with the `0x` marker that parsing would strip.
pub proof fn lemma_hex_round_trip(b: Seq<u8>)
    ensures
        hex_chars(b).len() == 2 * b.len(),
        valid_hex(hex_chars(b)),
        strip_0x(hex_chars(b)) == hex_chars(b),
        hex_decode_chars(hex_chars(b)) == b,
{
    let s = hex_chars(b);
    assert forall|i: int| 0 <= i < s.len() implies #[trigger] is_hex_char(s[i]) by {
        if i % 2 == 0 {
            lemma_hex_digit_char_val(b[i / 2] / 16);
        } else {
            lemma_hex_digit_char_val(b[i / 2] % 16);
        }
    }
    if s.len() >= 2 {
        lemma_hex_digit_char_val(b[0] % 16);
        assert(s[1] == hex_digit_char(b[0] % 16));
    }
    assert forall|i: int| 0 <= i < b.len() implies #[trigger] hex_decode_chars(s)[i] == b[i] by {
        lemma_hex_digit_char_val(b[i] / 16);
        lemma_hex_digit_char_val(b[i] % 16);
        assert(s[2 * i] == hex_digit_char(b[i] / 16));
        assert(s[2 * i + 1] == hex_digit_char(b[i] % 16));
    }
    assert(hex_decode_chars(s) =~= b);
}

/// Relies on hex::encode: every byte becomes two lowercase hexadecimal
/// digits, most significant nibble first.
#[verifier::external_body]
pub(crate) fn hex_encode(b: &[u8]) -> (r: String)
    ensures
        r@ == hex_chars(b@),
{
    hex::encode(b)
}

/// Relies on hex::decode: it succeeds exactly on an even number of
/// hexadecimal digits (either case) and returns the bytes the pairs denote.
#[verifier::external_body]
pub(crate) fn hex_decode(s: &str) -> (r: Option<Vec<u8>>)
    ensures
        r is Some <==> valid_hex(s@),
        r matches Some(v) ==> v@ == hex_decode_chars(s@),
{
    hex::decode(s).ok()
}

} // verus!
