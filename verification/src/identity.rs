//! The identity of a card: a UUID, made when the card is made and compared
//! for equality only.

use uuid::Uuid;
use vstd::prelude::*;

verus! {

/// `uuid::Uuid`, taken as an opaque value: sixteen bytes that nothing here
/// looks into.
#[verifier::external_type_specification]
#[verifier::external_body]
pub struct ExUuid(uuid::Uuid);

/// `Uuid::now_v7` makes a version 7 UUID from the system clock, a counter
/// that the process keeps, and random bits. Nothing is claimed of the value
/// it returns. It takes no input; it fails only where the system clock
/// stands before 1970 or the system hands out no random bytes.
pub assume_specification[ uuid::Uuid::now_v7 ]() -> (id: uuid::Uuid)
;

/// `Uuid`'s `==`, which `uuid` derives over the sixteen bytes: it holds
/// exactly when the two are the same UUID.
#[verifier::external_body]
pub(crate) fn same_identity(a: &Uuid, b: &Uuid) -> (same: bool)
    ensures
        same == (*a == *b),
{
    a == b
}

} // verus!
