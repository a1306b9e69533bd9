//! Identifiers of to-do items: 128-bit values, drawn at random.

use vstd::prelude::*;

verus! {

/// The bits of an identifier that say how it was made.
pub const KIND_MASK: u128 = 0x0000_0000_0000_f000_c000_0000_0000_0000u128;

/// What those bits hold in an identifier that was drawn at random.
pub const RANDOM_KIND: u128 = 0x0000_0000_0000_4000_8000_0000_0000_0000u128;

/// `id` has the shape of a randomly drawn identifier: its version field is 4
/// and its variant field starts with the bits 1, 0. The other 122 bits are
/// free.
pub open spec fn is_random_id(id: u128) -> bool {
    id & KIND_MASK == RANDOM_KIND
}

/// Whether `id` has the shape of a randomly drawn identifier.
pub fn has_random_shape(id: u128) -> (b: bool)
    ensures
        b == is_random_id(id),
{
    id & KIND_MASK == RANDOM_KIND
}

/// Draws an identifier with `uuid::Uuid::new_v4` and returns it as the
/// integer that `Uuid::as_u128` gives.
///
/// Trusted: `new_v4` takes 128 random bits and overwrites the version field
/// with 4 and the two leading variant bits with 1, 0. Nothing is claimed about
/// the random bits: two draws may return the same value.
#[verifier::external_body]
pub(crate) fn fresh_id() -> (id: u128)
    ensures
        is_random_id(id),
{
    uuid::Uuid::new_v4().as_u128()
}

} // verus!
