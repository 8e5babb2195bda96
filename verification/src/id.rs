//! Identifiers of threads and messages.
//!
//! An identifier is a UUID held as the 128-bit number that its sixteen
//! bytes spell in big-endian order.

use vstd::prelude::*;

verus! {

/// The bits of an identifier that hold the UUID version and variant.
pub const VERSION_VARIANT_MASK: u128 = 0x0000_0000_0000_f000_c000_0000_0000_0000u128;

/// What those bits hold in a random (version 4, RFC variant) UUID.
pub const RANDOM_VERSION_VARIANT: u128 = 0x0000_0000_0000_4000_8000_0000_0000_0000u128;

/// True when `id` is marked as a random UUID.
pub open spec fn is_random_id(id: u128) -> bool {
    id & VERSION_VARIANT_MASK == RANDOM_VERSION_VARIANT
}

/// A fresh random identifier.
///
/// Trusted: calls `uuid::Uuid::new_v4` and reads the result with
/// `Uuid::as_u128`. The contract claims only what `new_v4` fixes in every
/// outcome, the version and variant bits; the other 122 bits are random.
/// `new_v4` panics where the operating system gives no random bytes.
#[verifier::external_body]
pub(crate) fn random_id() -> (id: u128)
    ensures
        is_random_id(id),
{
    uuid::Uuid::new_v4().as_u128()
}

/// A fresh random identifier for a thread or a message.
pub fn new_id() -> (id: u128)
    ensures
        is_random_id(id),
{
    random_id()
}

} // verus!
