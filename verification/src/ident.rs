//! The identifiers that tie a secret to the record it came from, and a
//! project to the secrets assigned to it.
//!
//! The library stores an identifier, copies it and hands it on. It never looks
//! inside one and never compares two.
use vstd::prelude::*;

verus! {

/// `uuid::Uuid`, a 128-bit identifier, taken as an opaque value.
#[verifier::external_type_specification]
#[verifier::external_body]
pub struct ExUuid(uuid::Uuid);

/// `uuid::Uuid::new_v4` draws an identifier at random. Nothing is claimed of
/// the value: two calls may or may not differ, as far as any proof goes.
pub assume_specification[ uuid::Uuid::new_v4 ]() -> (id: uuid::Uuid)
;

} // verus!
