use vstd::prelude::*;
use vstd::bytes::*;
use crate::error::{CodecError, DecodeField};
use crate::eth_address::EthAddress;
use crate::records::{
    TransferDataEthereum, TransferDataEthereumV, TransferDataNear, TransferDataNearV,
    TransferMessage, TransferMessageV,
};
use crate::text::{bytes_chars, text_byte, text_bytes, text_char, wf_text};

verus! {

// ---------------------------------------------------------------------------
// The byte layout, as spec functions.
//
// Integers are fixed-width little-endian. Account identifiers are
// length-prefixed text: a 32-bit length followed by one byte per character.
// Addresses are 20 raw bytes. Each trailing optional field is a one-byte
// presence flag followed by the value when present.
// ---------------------------------------------------------------------------

/// The encoding of an account identifier: 32-bit length, then the text.
pub open spec fn enc_text(s: Seq<char>) -> Seq<u8>
    recommends
        wf_text(s),
{
    spec_u32_to_le_bytes(s.len() as u32) + text_bytes(s)
}

/// The encoding of the Ethereum-side transfer data.
pub open spec fn enc_eth_data(t: TransferDataEthereumV) -> Seq<u8> {
    enc_text(t.token_near) + t.token_eth + spec_u128_to_le_bytes(t.amount)
}

/// The encoding of the NEAR-side fee data.
pub open spec fn enc_near_data(f: TransferDataNearV) -> Seq<u8> {
    enc_text(f.token) + spec_u128_to_le_bytes(f.amount)
}

/// The encoding of an optional 64-bit integer: a presence flag, then the
/// value when present.
pub open spec fn enc_opt_u64(o: Option<u64>) -> Seq<u8> {
    match o {
        None => seq![0u8],
        Some(x) => seq![1u8] + spec_u64_to_le_bytes(x),
    }
}

/// The encoding of an optional address: a presence flag, then 20 raw bytes
/// when present.
pub open spec fn enc_opt_addr(o: Option<Seq<u8>>) -> Seq<u8> {
    match o {
        None => seq![0u8],
        Some(a) => seq![1u8] + a,
    }
}

/// The mandatory part of a message encoding: every field up to and including
/// `recipient`, in the fixed field order.
pub open spec fn enc_mandatory(m: TransferMessageV) -> Seq<u8> {
    spec_u64_to_le_bytes(m.valid_till) + enc_eth_data(m.transfer) + enc_near_data(m.fee)
        + m.recipient
}

/// The full encoding of a message: the mandatory part, then the versioned
/// suffix of the two trailing optional fields.
pub open spec fn enc_message(m: TransferMessageV) -> Seq<u8> {
    enc_mandatory(m) + enc_opt_u64(m.valid_till_block_height) + enc_opt_addr(m.aurora_sender)
}

/// The byte count of the mandatory part.
pub open spec fn mandatory_len(m: TransferMessageV) -> int {
    8 + (4 + m.transfer.token_near.len() as int) + 20 + 16 + (4 + m.fee.token.len() as int) + 16
        + 20
}

// ---------------------------------------------------------------------------
// Verified writers.
// ---------------------------------------------------------------------------

fn push_bytes(out: &mut Vec<u8>, b: &Vec<u8>)
    ensures
        final(out)@ == old(out)@ + b@,
{
    let mut i: usize = 0;
    while i < b.len()
        invariant
            0 <= i <= b@.len(),
            out@ == old(out)@ + b@.take(i as int),
        decreases b@.len() - i,
    {
        out.push(b[i]);
        proof {
            assert(old(out)@ + b@.take(i as int) + seq![b@[i as int]] =~= old(out)@ + b@.take(
                i as int + 1,
            ));
        }
        i += 1;
    }
    proof {
        assert(b@.take(b@.len() as int) =~= b@);
    }
}

fn push_u32_le(out: &mut Vec<u8>, x: u32)
    ensures
        final(out)@ == old(out)@ + spec_u32_to_le_bytes(x),
{
    let b = u32_to_le_bytes(x);
    push_bytes(out, &b);
}

fn push_u64_le(out: &mut Vec<u8>, x: u64)
    ensures
        final(out)@ == old(out)@ + spec_u64_to_le_bytes(x),
{
    let b = u64_to_le_bytes(x);
    push_bytes(out, &b);
}

fn push_u128_le(out: &mut Vec<u8>, x: u128)
    ensures
        final(out)@ == old(out)@ + spec_u128_to_le_bytes(x),
{
    let b = u128_to_le_bytes(x);
    push_bytes(out, &b);
}

fn push_text(out: &mut Vec<u8>, s: &String)
    requires
        wf_text(s@),
    ensures
        final(out)@ == old(out)@ + enc_text(s@),
{
    let st = s.as_str();
    let n = st.unicode_len();
    push_u32_le(out, n as u32);
    proof {
        assert forall|i: int| 0 <= i < st@.len() implies '\0' <= #[trigger] st@[i] <= '\u{7f}' by {
            assert(text_char(s@[i]));
        }
        assert(vstd::string::is_ascii(st));
        broadcast use vstd::string::is_ascii_spec_bytes;

    }
    let bv = st.as_bytes_vec();
    proof {
        assert(bv@ =~= text_bytes(s@));
    }
    push_bytes(out, &bv);
}

impl TransferMessage {
    /// Serializes the message to its flat byte form, in the fixed field
    /// order, with a presence flag before each trailing optional field.
    pub fn encode(&self) -> (r: Vec<u8>)
        requires
            self@.wf(),
        ensures
            r@ == enc_message(self@),
    {
        let mut out: Vec<u8> = Vec::new();
        push_u64_le(&mut out, self.valid_till);
        push_text(&mut out, &self.transfer.token_near);
        push_bytes(&mut out, &self.transfer.token_eth.0);
        push_u128_le(&mut out, self.transfer.amount);
        push_text(&mut out, &self.fee.token);
        push_u128_le(&mut out, self.fee.amount);
        push_bytes(&mut out, &self.recipient.0);
        proof {
            assert(out@ =~= enc_mandatory(self@));
        }
        match &self.valid_till_block_height {
            None => out.push(0u8),
            Some(h) => {
                out.push(1u8);
                push_u64_le(&mut out, *h);
            },
        }
        proof {
            assert(out@ =~= enc_mandatory(self@) + enc_opt_u64(self@.valid_till_block_height));
        }
        match &self.aurora_sender {
            None => out.push(0u8),
            Some(a) => {
                out.push(1u8);
                push_bytes(&mut out, &a.0);
            },
        }
        proof {
            assert(out@ =~= enc_message(self@));
        }
        out
    }
}

// ---------------------------------------------------------------------------
// The decoder, as spec functions: a deterministic parser over the byte
// sequence. Every reader returns the value and the next position, or nothing
// when the field cannot be read at that position.
// ---------------------------------------------------------------------------

pub open spec fn rd_u32(b: Seq<u8>, i: int) -> Option<(u32, int)> {
    if 0 <= i && i + 4 <= b.len() {
        Some((spec_u32_from_le_bytes(b.subrange(i, i + 4)), i + 4))
    } else {
        None
    }
}

pub open spec fn rd_u64(b: Seq<u8>, i: int) -> Option<(u64, int)> {
    if 0 <= i && i + 8 <= b.len() {
        Some((spec_u64_from_le_bytes(b.subrange(i, i + 8)), i + 8))
    } else {
        None
    }
}

pub open spec fn rd_u128(b: Seq<u8>, i: int) -> Option<(u128, int)> {
    if 0 <= i && i + 16 <= b.len() {
        Some((spec_u128_from_le_bytes(b.subrange(i, i + 16)), i + 16))
    } else {
        None
    }
}

pub open spec fn rd_bytes(b: Seq<u8>, i: int, n: int) -> Option<(Seq<u8>, int)> {
    if 0 <= i && 0 <= n && i + n <= b.len() {
        Some((b.subrange(i, i + n), i + n))
    } else {
        None
    }
}

/// Reads a length-prefixed account identifier. The read fails when the
/// length prefix or the text is truncated, and when a byte is not a safe
/// identifier character.
pub open spec fn rd_text(b: Seq<u8>, i: int) -> Option<(Seq<char>, int)> {
    match rd_u32(b, i) {
        None => None,
        Some((n, j)) => if j + n <= b.len() && (forall|k: int|
            j <= k < j + n ==> text_byte(#[trigger] b[k])) {
            Some((bytes_chars(b.subrange(j, j + n)), j + n))
        } else {
            None
        },
    }
}

/// Parses the mandatory fields, through `recipient`. The result carries the
/// next position; the two trailing optional fields are still absent.
pub open spec fn dec_mandatory(b: Seq<u8>) -> Result<(TransferMessageV, int), DecodeField> {
    match rd_u64(b, 0) {
        None => Err(DecodeField::ValidTill),
        Some((vt, i1)) => match rd_text(b, i1) {
            None => Err(DecodeField::TokenNear),
            Some((tn, i2)) => match rd_bytes(b, i2, 20) {
                None => Err(DecodeField::TokenEth),
                Some((te, i3)) => match rd_u128(b, i3) {
                    None => Err(DecodeField::Amount),
                    Some((am, i4)) => match rd_text(b, i4) {
                        None => Err(DecodeField::FeeToken),
                        Some((ft, i5)) => match rd_u128(b, i5) {
                            None => Err(DecodeField::FeeAmount),
                            Some((fa, i6)) => match rd_bytes(b, i6, 20) {
                                None => Err(DecodeField::Recipient),
                                Some((rc, i7)) => Ok(
                                    (
                                        TransferMessageV {
                                            valid_till: vt,
                                            transfer: TransferDataEthereumV {
                                                token_near: tn,
                                                token_eth: te,
                                                amount: am,
                                            },
                                            fee: TransferDataNearV { token: ft, amount: fa },
                                            recipient: rc,
                                            valid_till_block_height: None,
                                            aurora_sender: None,
                                        },
                                        i7,
                                    ),
                                ),
                            },
                        },
                    },
                },
            },
        },
    }
}

/// Parses the trailing `aurora_sender` field under the lenient rule: when
/// the stream is exhausted the field is absent; when the read fails for any
/// other reason — a presence tag that is neither 0 nor 1, or tag 1 with a
/// truncated value — the tag byte is still consumed and the field is also
/// absent. Only bytes beyond that are rejected, as unconsumed trailing data.
pub open spec fn dec_aurora(b: Seq<u8>, m: TransferMessageV, i: int) -> Result<
    TransferMessageV,
    DecodeField,
> {
    if i == b.len() {
        Ok(m)
    } else {
        let f = b[i];
        let step: (TransferMessageV, int) = if f == 1 && i + 21 <= b.len() {
            (TransferMessageV { aurora_sender: Some(b.subrange(i + 1, i + 21)), ..m }, i + 21)
        } else {
            (m, i + 1)
        };
        if step.1 == b.len() {
            Ok(step.0)
        } else {
            Err(DecodeField::Trailing)
        }
    }
}

/// Parses the trailing `valid_till_block_height` field: an exhausted stream
/// means both trailing fields are absent; otherwise a malformed flag or a
/// truncated value is an error, and a read value hands over to the even more
/// lenient `aurora_sender` rule.
pub open spec fn dec_tail(b: Seq<u8>, m: TransferMessageV, i: int) -> Result<
    TransferMessageV,
    DecodeField,
> {
    if i == b.len() {
        Ok(m)
    } else {
        let f = b[i];
        if f == 0 {
            dec_aurora(b, m, i + 1)
        } else if f == 1 {
            match rd_u64(b, i + 1) {
                None => Err(DecodeField::ValidTillBlockHeight),
                Some((x, j)) => dec_aurora(
                    b,
                    TransferMessageV { valid_till_block_height: Some(x), ..m },
                    j,
                ),
            }
        } else {
            Err(DecodeField::ValidTillBlockHeight)
        }
    }
}

/// What decoding a byte sequence yields: the parsed message, or the field at
/// which parsing failed. Every byte must be consumed.
pub open spec fn dec_message(b: Seq<u8>) -> Result<TransferMessageV, DecodeField> {
    match dec_mandatory(b) {
        Err(f) => Err(f),
        Ok((m, i)) => dec_tail(b, m, i),
    }
}

// ---------------------------------------------------------------------------
// Verified readers.
// ---------------------------------------------------------------------------

fn read_u32(b: &Vec<u8>, pos: usize) -> (r: Option<(u32, usize)>)
    ensures
        r is Some <==> rd_u32(b@, pos as int) is Some,
        r matches Some(p) ==> rd_u32(b@, pos as int) == Some((p.0, p.1 as int)),
{
    if pos <= b.len() && b.len() - pos >= 4 {
        let s = vstd::slice::slice_subrange(b.as_slice(), pos, pos + 4);
        Some((u32_from_le_bytes(s), pos + 4))
    } else {
        None
    }
}

fn read_u64(b: &Vec<u8>, pos: usize) -> (r: Option<(u64, usize)>)
    ensures
        r is Some <==> rd_u64(b@, pos as int) is Some,
        r matches Some(p) ==> rd_u64(b@, pos as int) == Some((p.0, p.1 as int)),
{
    if pos <= b.len() && b.len() - pos >= 8 {
        let s = vstd::slice::slice_subrange(b.as_slice(), pos, pos + 8);
        Some((u64_from_le_bytes(s), pos + 8))
    } else {
        None
    }
}

fn read_u128(b: &Vec<u8>, pos: usize) -> (r: Option<(u128, usize)>)
    ensures
        r is Some <==> rd_u128(b@, pos as int) is Some,
        r matches Some(p) ==> rd_u128(b@, pos as int) == Some((p.0, p.1 as int)),
{
    if pos <= b.len() && b.len() - pos >= 16 {
        let s = vstd::slice::slice_subrange(b.as_slice(), pos, pos + 16);
        Some((u128_from_le_bytes(s), pos + 16))
    } else {
        None
    }
}

fn read_bytes20(b: &Vec<u8>, pos: usize) -> (r: Option<(Vec<u8>, usize)>)
    ensures
        r is Some <==> rd_bytes(b@, pos as int, 20) is Some,
        r matches Some(p) ==> rd_bytes(b@, pos as int, 20) == Some((p.0@, p.1 as int)),
{
    if pos <= b.len() && b.len() - pos >= 20 {
        let s = vstd::slice::slice_subrange(b.as_slice(), pos, pos + 20);
        Some((vstd::slice::slice_to_vec(s), pos + 20))
    } else {
        None
    }
}

fn read_text(b: &Vec<u8>, pos: usize) -> (r: Option<(String, usize)>)
    ensures
        r is Some <==> rd_text(b@, pos as int) is Some,
        r matches Some(p) ==> (rd_text(b@, pos as int) matches Some(q) && p.0@ == q.0 && p.1 as int
            == q.1 && wf_text(p.0@)),
{
    match read_u32(b, pos) {
        None => None,
        Some((n32, p1)) => {
            let n = n32 as usize;
            if b.len() - p1 < n {
                return None;
            }
            let end = p1 + n;
            let mut j: usize = p1;
            while j < end
                invariant
                    p1 <= j <= end,
                    end == p1 + n,
                    n == n32 as usize,
                    end <= b@.len(),
                    rd_u32(b@, pos as int) == Some((n32, p1 as int)),
                    forall|k: int| p1 <= k < j ==> text_byte(#[trigger] b@[k]),
                decreases end - j,
            {
                let byte = b[j];
                if !(0x20 <= byte && byte < 0x7f && byte != 0x22 && byte != 0x5c) {
                    proof {
                        assert(!text_byte(b@[j as int]));
                        assert(p1 as int <= j as int && (j as int) < p1 as int + n32 as int);
                        assert(!(forall|k: int|
                            p1 as int <= k < p1 as int + n32 as int ==> text_byte(
                                #[trigger] b@[k],
                            )));
                        assert(rd_text(b@, pos as int) is None);
                    }
                    return None;
                }
                j += 1;
            }
            let s = vstd::slice::slice_subrange(b.as_slice(), p1, end);
            let v = vstd::slice::slice_to_vec(s);
            proof {
                assert forall|t: int| 0 <= t < v@.len() implies v@[t] < 0x80 by {
                    assert(text_byte(b@[p1 + t]));
                }
            }
            let st = crate::text::string_from_ascii(v);
            proof {
                let q0 = bytes_chars(b@.subrange(p1 as int, p1 as int + n as int));
                assert(st@ == q0);
                assert forall|j: int| 0 <= j < q0.len() implies #[trigger] text_char(q0[j]) by {
                    assert(text_byte(b@[p1 + j]));
                }
            }
            Some((st, p1 + n))
        },
    }
}

impl TransferMessage {
    /// Reconstructs a message from its flat byte form, reading the fields in
    /// the fixed order. A byte stream written by an older layout may end
    /// after `recipient` or after `valid_till_block_height`: the missing
    /// trailing fields then resolve to absent. A failed `aurora_sender` read
    /// is absorbed as absent too, with its presence tag consumed. A failure
    /// on any non-trailing field, or bytes left unconsumed at the end,
    /// reject the stream.
    pub fn decode(bytes: &Vec<u8>) -> (r: Result<TransferMessage, CodecError>)
        ensures
            (r is Ok) <==> (dec_message(bytes@) is Ok),
            r matches Ok(m) ==> (dec_message(bytes@) == Ok::<TransferMessageV, DecodeField>(m@)
                && m@.wf()),
            r matches Err(e) ==> (dec_message(bytes@) matches Err(f) && e
                == CodecError::MalformedData(f)),
    {
        let (vt, i1) = match read_u64(bytes, 0) {
            Some(p) => p,
            None => {
                return Err(CodecError::MalformedData(DecodeField::ValidTill));
            },
        };
        let (tn, i2) = match read_text(bytes, i1) {
            Some(p) => p,
            None => {
                return Err(CodecError::MalformedData(DecodeField::TokenNear));
            },
        };
        let (te, i3) = match read_bytes20(bytes, i2) {
            Some(p) => p,
            None => {
                return Err(CodecError::MalformedData(DecodeField::TokenEth));
            },
        };
        let (am, i4) = match read_u128(bytes, i3) {
            Some(p) => p,
            None => {
                return Err(CodecError::MalformedData(DecodeField::Amount));
            },
        };
        let (ft, i5) = match read_text(bytes, i4) {
            Some(p) => p,
            None => {
                return Err(CodecError::MalformedData(DecodeField::FeeToken));
            },
        };
        let (fa, i6) = match read_u128(bytes, i5) {
            Some(p) => p,
            None => {
                return Err(CodecError::MalformedData(DecodeField::FeeAmount));
            },
        };
        let (rc, i7) = match read_bytes20(bytes, i6) {
            Some(p) => p,
            None => {
                return Err(CodecError::MalformedData(DecodeField::Recipient));
            },
        };
        let mut msg = TransferMessage {
            valid_till: vt,
            transfer: TransferDataEthereum {
                token_near: tn,
                token_eth: EthAddress(te),
                amount: am,
            },
            fee: TransferDataNear { token: ft, amount: fa },
            recipient: EthAddress(rc),
            valid_till_block_height: None,
            aurora_sender: None,
        };
        proof {
            assert(dec_mandatory(bytes@) == Ok::<(TransferMessageV, int), DecodeField>(
                (msg@, i7 as int),
            ));
        }
        if i7 == bytes.len() {
            return Ok(msg);
        }
        let f = bytes[i7];
        let i8: usize = if f == 0 {
            i7 + 1
        } else if f == 1 {
            match read_u64(bytes, i7 + 1) {
                Some((x, j)) => {
                    msg.valid_till_block_height = Some(x);
                    j
                },
                None => {
                    return Err(CodecError::MalformedData(DecodeField::ValidTillBlockHeight));
                },
            }
        } else {
            return Err(CodecError::MalformedData(DecodeField::ValidTillBlockHeight));
        };
        let ghost mid = msg@;
        if i8 == bytes.len() {
            proof {
                assert(dec_tail(bytes@, dec_mandatory(bytes@)->Ok_0.0, i7 as int) == Ok::<
                    TransferMessageV,
                    DecodeField,
                >(mid));
            }
            return Ok(msg);
        }
        let g = bytes[i8];
        let i9: usize = if g == 1 && bytes.len() - i8 >= 21 {
            let (a, j) = match read_bytes20(bytes, i8 + 1) {
                Some(p) => p,
                None => {
                    return vstd::pervasive::unreached();
                },
            };
            msg.aurora_sender = Some(EthAddress(a));
            j
        } else {
            // Tag 0, a malformed tag, or a truncated value: the tag byte is
            // consumed and the field stays absent.
            i8 + 1
        };
        if i9 == bytes.len() {
            proof {
                assert(dec_tail(bytes@, dec_mandatory(bytes@)->Ok_0.0, i7 as int) == Ok::<
                    TransferMessageV,
                    DecodeField,
                >(msg@));
            }
            Ok(msg)
        } else {
            proof {
                assert(dec_tail(bytes@, dec_mandatory(bytes@)->Ok_0.0, i7 as int) == Err::<
                    TransferMessageV,
                    DecodeField,
                >(DecodeField::Trailing));
            }
            Err(CodecError::MalformedData(DecodeField::Trailing))
        }
    }
}

// ---------------------------------------------------------------------------
// Laws of the codec.
// ---------------------------------------------------------------------------

proof fn lemma_rd_u32_at(b: Seq<u8>, i: int, x: u32)
    requires
        0 <= i,
        i + 4 <= b.len(),
        b.subrange(i, i + 4) == spec_u32_to_le_bytes(x),
    ensures
        rd_u32(b, i) == Some((x, i + 4)),
{
    lemma_auto_spec_u32_to_from_le_bytes();
    assert(spec_u32_to_le_bytes(x).len() == 4);
    assert(spec_u32_from_le_bytes(spec_u32_to_le_bytes(x)) == x);
}

proof fn lemma_rd_u64_at(b: Seq<u8>, i: int, x: u64)
    requires
        0 <= i,
        i + 8 <= b.len(),
        b.subrange(i, i + 8) == spec_u64_to_le_bytes(x),
    ensures
        rd_u64(b, i) == Some((x, i + 8)),
{
    lemma_auto_spec_u64_to_from_le_bytes();
    assert(spec_u64_to_le_bytes(x).len() == 8);
    assert(spec_u64_from_le_bytes(spec_u64_to_le_bytes(x)) == x);
}

proof fn lemma_rd_u128_at(b: Seq<u8>, i: int, x: u128)
    requires
        0 <= i,
        i + 16 <= b.len(),
        b.subrange(i, i + 16) == spec_u128_to_le_bytes(x),
    ensures
        rd_u128(b, i) == Some((x, i + 16)),
{
    lemma_auto_spec_u128_to_from_le_bytes();
    assert(spec_u128_to_le_bytes(x).len() == 16);
    assert(spec_u128_from_le_bytes(spec_u128_to_le_bytes(x)) == x);
}

proof fn lemma_rd_text_at(b: Seq<u8>, i: int, s: Seq<char>)
    requires
        0 <= i,
        wf_text(s),
        i + 4 + s.len() <= b.len(),
        b.subrange(i, i + 4 + s.len()) == enc_text(s),
    ensures
        rd_text(b, i) == Some((s, i + 4 + s.len())),
{
    lemma_auto_spec_u32_to_from_le_bytes();
    let el = s.len() as int;
    assert forall|k: int| 0 <= k < 4 implies b.subrange(i, i + 4)[k] == enc_text(s)[k] by {
        assert(b.subrange(i, i + 4)[k] == b.subrange(i, i + 4 + el)[k]);
    }
    assert(b.subrange(i, i + 4) =~= spec_u32_to_le_bytes(s.len() as u32));
    lemma_rd_u32_at(b, i, s.len() as u32);
    assert forall|k: int| i + 4 <= k < i + 4 + el implies text_byte(#[trigger] b[k]) by {
        assert(b[k] == b.subrange(i, i + 4 + el)[k - i]);
        assert(enc_text(s)[k - i] == text_bytes(s)[k - i - 4]);
        assert(text_char(s[k - i - 4]));
    }
    assert forall|k: int| 0 <= k < el implies bytes_chars(b.subrange(i + 4, i + 4 + el))[k] == s[k]
        by {
        assert(b[i + 4 + k] == b.subrange(i, i + 4 + el)[4 + k]);
        assert(enc_text(s)[4 + k] == text_bytes(s)[k]);
        assert(text_char(s[k]));
    }
    assert(bytes_chars(b.subrange(i + 4, i + 4 + el)) =~= s);
}

/// The byte counts of an encoding and of its parts.
pub proof fn lemma_enc_lens(m: TransferMessageV)
    requires
        m.wf(),
    ensures
        enc_text(m.transfer.token_near).len() == 4 + m.transfer.token_near.len(),
        enc_text(m.fee.token).len() == 4 + m.fee.token.len(),
        enc_mandatory(m).len() == mandatory_len(m),
        enc_opt_u64(m.valid_till_block_height).len() == (
        if m.valid_till_block_height is Some {
            9int
        } else {
            1int
        }),
        enc_opt_addr(m.aurora_sender).len() == (
        if m.aurora_sender is Some {
            21int
        } else {
            1int
        }),
        enc_message(m).len() == mandatory_len(m) + enc_opt_u64(m.valid_till_block_height).len()
            + enc_opt_addr(m.aurora_sender).len(),
{
    lemma_auto_spec_u32_to_from_le_bytes();
    lemma_auto_spec_u64_to_from_le_bytes();
    lemma_auto_spec_u128_to_from_le_bytes();
    assert(spec_u64_to_le_bytes(m.valid_till).len() == 8);
    assert(spec_u32_to_le_bytes(m.transfer.token_near.len() as u32).len() == 4);
    assert(spec_u32_to_le_bytes(m.fee.token.len() as u32).len() == 4);
    assert(spec_u128_to_le_bytes(m.transfer.amount).len() == 16);
    assert(spec_u128_to_le_bytes(m.fee.amount).len() == 16);
    match m.valid_till_block_height {
        Some(x) => {
            assert(spec_u64_to_le_bytes(x).len() == 8);
        },
        None => {},
    }
}

/// After a successful parse of the mandatory fields of an encoded message,
/// the parser stands exactly at the versioned suffix.
proof fn lemma_dec_mandatory_at(m: TransferMessageV, b: Seq<u8>)
    requires
        m.wf(),
        b.len() >= mandatory_len(m),
        b.subrange(0, mandatory_len(m)) == enc_mandatory(m),
    ensures
        dec_mandatory(b) == Ok::<(TransferMessageV, int), DecodeField>(
            (
                TransferMessageV {
                    valid_till_block_height: None,
                    aurora_sender: None,
                    ..m
                },
                mandatory_len(m),
            ),
        ),
{
    lemma_enc_lens(m);
    lemma_auto_spec_u32_to_from_le_bytes();
    lemma_auto_spec_u64_to_from_le_bytes();
    lemma_auto_spec_u128_to_from_le_bytes();
    let tn = m.transfer.token_near;
    let ft = m.fee.token;
    let ml = mandatory_len(m);
    let p1: int = 8;
    let p2 = p1 + 4 + tn.len() as int;
    let p3 = p2 + 20;
    let p4 = p3 + 16;
    let p5 = p4 + 4 + ft.len() as int;
    let p6 = p5 + 16;
    assert forall|k: int| 0 <= k < ml implies b[k] == enc_mandatory(m)[k] by {
        assert(b[k] == b.subrange(0, ml)[k]);
    }
    assert(b.subrange(0, p1) =~= spec_u64_to_le_bytes(m.valid_till));
    lemma_rd_u64_at(b, 0, m.valid_till);
    assert(b.subrange(p1, p2) =~= enc_text(tn));
    lemma_rd_text_at(b, p1, tn);
    assert(b.subrange(p2, p3) =~= m.transfer.token_eth);
    assert(b.subrange(p3, p4) =~= spec_u128_to_le_bytes(m.transfer.amount));
    lemma_rd_u128_at(b, p3, m.transfer.amount);
    assert(b.subrange(p4, p5) =~= enc_text(ft));
    lemma_rd_text_at(b, p4, ft);
    assert(b.subrange(p5, p6) =~= spec_u128_to_le_bytes(m.fee.amount));
    lemma_rd_u128_at(b, p5, m.fee.amount);
    assert(b.subrange(p6, ml) =~= m.recipient);
    assert(dec_mandatory(b) matches Ok(p) && p.1 == ml && p.0 =~= (TransferMessageV {
        valid_till_block_height: None,
        aurora_sender: None,
        ..m
    }));
}

/// Round trip: decoding an encoding returns the message unchanged.
pub proof fn lemma_decode_encode(m: TransferMessageV)
    requires
        m.wf(),
    ensures
        dec_message(enc_message(m)) == Ok::<TransferMessageV, DecodeField>(m),
{
    lemma_enc_lens(m);
    lemma_auto_spec_u64_to_from_le_bytes();
    let b = enc_message(m);
    let ml = mandatory_len(m);
    let suffix = enc_opt_u64(m.valid_till_block_height) + enc_opt_addr(m.aurora_sender);
    assert(b.subrange(0, ml) =~= enc_mandatory(m));
    lemma_dec_mandatory_at(m, b);
    let m0 = TransferMessageV { valid_till_block_height: None, aurora_sender: None, ..m };
    assert(forall|k: int| 0 <= k < suffix.len() ==> b[ml + k] == #[trigger] suffix[k]);
    let q: int = match m.valid_till_block_height {
        None => {
            assert(b[ml] == 0);
            ml + 1
        },
        Some(x) => {
            assert(b[ml] == 1);
            assert(b.subrange(ml + 1, ml + 9) =~= spec_u64_to_le_bytes(x));
            lemma_rd_u64_at(b, ml + 1, x);
            ml + 9
        },
    };
    let m1 = TransferMessageV { aurora_sender: None, ..m };
    match m.aurora_sender {
        None => {
            if q < b.len() {
                assert(b[q] == 0);
                assert(q + 1 == b.len());
            }
            assert(dec_tail(b, m0, ml) matches Ok(r) && r =~= m);
        },
        Some(a) => {
            assert(b[q] == 1);
            assert(q + 21 == b.len());
            assert(b.subrange(q + 1, q + 21) =~= a);
            assert(dec_tail(b, m0, ml) matches Ok(r) && r =~= m);
        },
    }
}

/// Tolerance of the trailing field: any single byte in the `aurora_sender`
/// position at the very end of the stream — a malformed presence tag, or a
/// tag promising a value the stream no longer holds — is absorbed, not
/// propagated: the decode succeeds and the field resolves to absent.
pub proof fn lemma_decode_malformed_aurora_tag(m: TransferMessageV, g: u8)
    requires
        m.wf(),
    ensures
        ({
            let b = enc_message(m);
            let t = b.take(b.len() - enc_opt_addr(m.aurora_sender).len() as int) + seq![g];
            dec_message(t) == Ok::<TransferMessageV, DecodeField>(
                TransferMessageV { aurora_sender: None, ..m },
            )
        }),
{
    lemma_enc_lens(m);
    lemma_auto_spec_u64_to_from_le_bytes();
    let b = enc_message(m);
    let t = b.take(b.len() - enc_opt_addr(m.aurora_sender).len() as int) + seq![g];
    let ml = mandatory_len(m);
    assert(t =~= enc_mandatory(m) + enc_opt_u64(m.valid_till_block_height) + seq![g]);
    assert(t.subrange(0, ml) =~= enc_mandatory(m));
    lemma_dec_mandatory_at(m, t);
    let m0 = TransferMessageV { valid_till_block_height: None, aurora_sender: None, ..m };
    match m.valid_till_block_height {
        None => {
            assert(t[ml] == 0);
            assert(t[ml + 1] == g);
            assert(ml + 2 == t.len());
            assert(dec_tail(t, m0, ml) matches Ok(r) && r =~= (TransferMessageV {
                aurora_sender: None,
                ..m
            }));
        },
        Some(x) => {
            assert(t[ml] == 1);
            assert(t.subrange(ml + 1, ml + 9) =~= spec_u64_to_le_bytes(x));
            lemma_rd_u64_at(t, ml + 1, x);
            assert(t[ml + 9] == g);
            assert(ml + 10 == t.len());
            assert(dec_tail(t, m0, ml) matches Ok(r) && r =~= (TransferMessageV {
                aurora_sender: None,
                ..m
            }));
        },
    }
}

/// Backward compatibility: cutting the whole trailing `aurora_sender` field
/// off an encoding, as an older producer would, still decodes, and only that
/// field resolves to absent.
pub proof fn lemma_decode_truncated_aurora(m: TransferMessageV)
    requires
        m.wf(),
    ensures
        ({
            let b = enc_message(m);
            let t = b.take(b.len() - enc_opt_addr(m.aurora_sender).len() as int);
            dec_message(t) == Ok::<TransferMessageV, DecodeField>(
                TransferMessageV { aurora_sender: None, ..m },
            )
        }),
{
    lemma_enc_lens(m);
    lemma_auto_spec_u64_to_from_le_bytes();
    let b = enc_message(m);
    let t = b.take(b.len() - enc_opt_addr(m.aurora_sender).len() as int);
    let ml = mandatory_len(m);
    assert(t =~= enc_mandatory(m) + enc_opt_u64(m.valid_till_block_height));
    assert(t.subrange(0, ml) =~= enc_mandatory(m));
    lemma_dec_mandatory_at(m, t);
    let m0 = TransferMessageV { valid_till_block_height: None, aurora_sender: None, ..m };
    match m.valid_till_block_height {
        None => {
            assert(t[ml] == 0);
            assert(ml + 1 == t.len());
            assert(dec_tail(t, m0, ml) matches Ok(r) && r =~= (TransferMessageV {
                aurora_sender: None,
                ..m
            }));
        },
        Some(x) => {
            assert(t[ml] == 1);
            assert(t.subrange(ml + 1, ml + 9) =~= spec_u64_to_le_bytes(x));
            lemma_rd_u64_at(t, ml + 1, x);
            assert(ml + 9 == t.len());
            assert(dec_tail(t, m0, ml) matches Ok(r) && r =~= (TransferMessageV {
                aurora_sender: None,
                ..m
            }));
        },
    }
}

/// Backward compatibility: cutting both trailing optional fields off an
/// encoding still decodes, and both resolve to absent.
pub proof fn lemma_decode_truncated_tail(m: TransferMessageV)
    requires
        m.wf(),
    ensures
        dec_message(enc_message(m).take(mandatory_len(m))) == Ok::<TransferMessageV, DecodeField>(
            TransferMessageV { valid_till_block_height: None, aurora_sender: None, ..m },
        ),
{
    lemma_enc_lens(m);
    let b = enc_message(m);
    let t = b.take(mandatory_len(m));
    let ml = mandatory_len(m);
    assert(t.subrange(0, ml) =~= enc_mandatory(m));
    lemma_dec_mandatory_at(m, t);
    assert(t.len() == ml);
}

/// The boundary of the tolerance: a stream cut anywhere inside the mandatory
/// fields — up to and including `recipient` — is rejected. Only the two
/// trailing optional fields are forgiven a truncation.
pub proof fn lemma_truncated_mandatory_fails(m: TransferMessageV, n: int)
    requires
        m.wf(),
        0 <= n < mandatory_len(m),
    ensures
        dec_message(enc_message(m).take(n)) is Err,
{
    lemma_enc_lens(m);
    lemma_auto_spec_u32_to_from_le_bytes();
    lemma_auto_spec_u64_to_from_le_bytes();
    lemma_auto_spec_u128_to_from_le_bytes();
    let b = enc_message(m);
    let t = b.take(n);
    let tn = m.transfer.token_near;
    let ft = m.fee.token;
    let ml = mandatory_len(m);
    let p1: int = 8;
    let p2 = p1 + 4 + tn.len() as int;
    let p3 = p2 + 20;
    let p4 = p3 + 16;
    let p5 = p4 + 4 + ft.len() as int;
    let p6 = p5 + 16;
    assert forall|k: int| 0 <= k < n implies t[k] == enc_mandatory(m)[k] by {
        assert(b[k] == enc_mandatory(m)[k]);
    }
    if n < p1 {
        assert(rd_u64(t, 0) is None);
    } else {
        assert(t.subrange(0, p1) =~= spec_u64_to_le_bytes(m.valid_till));
        lemma_rd_u64_at(t, 0, m.valid_till);
        if n < p2 {
            if n < p1 + 4 {
                assert(rd_u32(t, p1) is None);
            } else {
                assert(t.subrange(p1, p1 + 4) =~= spec_u32_to_le_bytes(tn.len() as u32));
                lemma_rd_u32_at(t, p1, tn.len() as u32);
            }
            assert(rd_text(t, p1) is None);
        } else {
            assert(t.subrange(p1, p2) =~= enc_text(tn));
            lemma_rd_text_at(t, p1, tn);
            if n < p3 {
                assert(rd_bytes(t, p2, 20) is None);
            } else {
                if n < p4 {
                    assert(rd_u128(t, p3) is None);
                } else {
                    assert(t.subrange(p3, p4) =~= spec_u128_to_le_bytes(m.transfer.amount));
                    lemma_rd_u128_at(t, p3, m.transfer.amount);
                    if n < p5 {
                        if n < p4 + 4 {
                            assert(rd_u32(t, p4) is None);
                        } else {
                            assert(t.subrange(p4, p4 + 4) =~= spec_u32_to_le_bytes(
                                ft.len() as u32,
                            ));
                            lemma_rd_u32_at(t, p4, ft.len() as u32);
                        }
                        assert(rd_text(t, p4) is None);
                    } else {
                        assert(t.subrange(p4, p5) =~= enc_text(ft));
                        lemma_rd_text_at(t, p4, ft);
                        if n < p6 {
                            assert(rd_u128(t, p5) is None);
                        } else {
                            assert(t.subrange(p5, p6) =~= spec_u128_to_le_bytes(m.fee.amount));
                            lemma_rd_u128_at(t, p5, m.fee.amount);
                            assert(rd_bytes(t, p6, 20) is None);
                        }
                    }
                }
            }
        }
    }
}

} // verus!
