use vstd::prelude::*;

verus! {

/// Names the field of the binary layout at which a decode failed.
#[derive(Clone, Copy, Debug, PartialEq, Eq, Structural)]
pub enum DecodeField {
    /// The fixed-width `valid_till` integer was truncated.
    ValidTill,
    /// The `token_near` account identifier could not be read.
    TokenNear,
    /// The `token_eth` address bytes were truncated.
    TokenEth,
    /// The fixed-width transfer amount was truncated.
    Amount,
    /// The fee's account identifier could not be read.
    FeeToken,
    /// The fixed-width fee amount was truncated.
    FeeAmount,
    /// The `recipient` address bytes were truncated.
    Recipient,
    /// The `valid_till_block_height` presence flag or value was malformed.
    ValidTillBlockHeight,
    /// Bytes were left over after the final field.
    Trailing,
}

/// Typed failures of the address codec and of the binary codec.
#[derive(Clone, Copy, Debug, PartialEq, Eq, Structural)]
pub enum CodecError {
    /// Hex text held a character that is not a hexadecimal digit, or an odd
    /// number of digits.
    InvalidEncoding,
    /// An address was built from a byte count other than 20.
    InvalidLength,
    /// A binary decode failed on a non-trailing field; the payload names it.
    MalformedData(DecodeField),
}

} // verus!
