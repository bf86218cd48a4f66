//! Wire-level event and data model for a cross-chain bridge contract.
//!
//! The crate defines the transfer/proof records, a tagged event enum, and two
//! independent encodings of the same logical data: a compact binary encoding
//! with a versioned trailing-field suffix, and a structured JSON envelope for
//! observable log events.

pub mod error;
pub mod codec;
pub mod eth_address;
pub mod events;
pub mod records;
pub mod text;
