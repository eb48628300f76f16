//! Heads-up Texas Hold'em table logic: the deal circuit's shuffle and masking,
//! the betting state machine, mask reveal and hand evaluation at showdown.

pub mod arcium_compute;
pub mod encrypted_ixs;
pub mod errors;
pub mod hand;
pub mod instructions;
pub mod keccak;
pub mod protocol;
pub mod shuffle;
pub mod state;

pub use errors::HoldemError;

use vstd::prelude::*;

verus! {

/// Byte offset of the first field after the fixed fields of the serialised
/// table account (8-byte discriminator, then the fields in declaration order).
pub const ENCRYPTED_STATE_OFFSET: u32 = 232;

/// Space allocated for the table account: its fixed fields, the
/// discriminator and padding.
pub const TABLE_SPACE: usize = 512;

} // verus!
