use vstd::prelude::*;

verus! {

/// The version and variant bits of an RFC 9562 version 4 UUID, as a mask
/// and the value they hold.
pub open spec fn is_v4(id: u128) -> bool {
    id & 0xF000_C000_0000_0000_0000u128 == 0x4000_8000_0000_0000_0000u128
}

/// Draws a fresh random (version 4) UUID from the `uuid` crate and hands it
/// back as its 128-bit integer value.  `Uuid::new_v4` sets the version
/// nibble to 4 and the variant bits to `10`, and `as_u128` reads the bytes
/// back in the order they were made from; the other bits depend on the
/// random number generator, and nothing is promised of them.
#[verifier::external_body]
fn uuid_v4_as_u128() -> (id: u128)
    ensures
        is_v4(id),
{
    uuid::Uuid::new_v4().as_u128()
}

/// A fresh random identifier: the 128-bit value of a version 4 UUID.  Its
/// random bits are not promised.
pub fn new_v4() -> (id: u128)
    ensures
        is_v4(id),
{
    uuid_v4_as_u128()
}

} // verus!
