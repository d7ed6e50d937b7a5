//! Generic type-3 information elements of CMCE PDUs.
use vstd::prelude::*;

verus! {

/// Type-3 element identifier of the External subscriber number element.
pub const EXT_SUBSCRIBER_NUM_ID: u8 = 2;

/// A generic type-3 element whose payload (up to 64 bits) is held MSB-first in `data`.
#[derive(Debug, Clone, Copy, PartialEq, Eq, Structural)]
pub struct Type3FieldGeneric {
    pub field_id: u8,
    /// Payload length in bits.
    pub len: usize,
    pub data: u64,
}

/// A generic type-3 element whose payload (up to 128 bits) is right-aligned in `data`.
#[derive(Debug, Clone, Copy, PartialEq, Eq, Structural)]
pub struct Type3FieldWide {
    pub field_id: u8,
    /// Payload length in bits.
    pub len: usize,
    pub data: u128,
}

} // verus!
