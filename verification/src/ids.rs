//! Fresh record ids, drawn from the operating system's randomness.

use vstd::prelude::*;

verus! {

/// Relies on uuid::Uuid::new_v4, which draws a random 128-bit id and fixes
/// the version nibble to 4 and the two variant bits to binary 10. Nothing
/// more can be promised of a random value; in particular not uniqueness,
/// which the store's id constraint checks on insert.
#[verifier::external_body]
pub fn fresh_id() -> (r: u128)
    ensures
        r & 0xf0000000000000000000 == 0x40000000000000000000,
        r & 0xc000000000000000 == 0x8000000000000000,
{
    uuid::Uuid::new_v4().as_u128()
}

} // verus!
