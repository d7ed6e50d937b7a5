//! Identifiers of Brew call sessions: random (version 4) UUIDs, held as their 128-bit value.
use vstd::prelude::*;

verus! {

/// A fresh random UUID (`uuid::Uuid::new_v4`), as its big-endian 128-bit value. The value is
/// random; what every outcome shares is the version nibble 4 and the RFC 4122 variant bits 10.
#[verifier::external_body]
pub(crate) fn new_session_uuid() -> (r: u128)
    ensures
        (r >> 76u128) & 0xFu128 == 4,
        (r >> 62u128) & 0x3u128 == 2,
{
    uuid::Uuid::new_v4().as_u128()
}

} // verus!
