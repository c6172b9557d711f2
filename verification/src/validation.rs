//! Length validation for raw DID byte strings.

use vstd::prelude::*;

verus! {

/// Longest byte string accepted as a DID prefix.
pub const BYTEARRAY_LIMIT: usize = 64;

/// Why a candidate byte string was rejected.
#[derive(Clone, Copy, Debug, PartialEq, Eq, Structural)]
pub enum ValidationError {
    /// The candidate was empty.
    EmptyInput,
    /// The candidate was longer than `BYTEARRAY_LIMIT` bytes.
    TooLong,
}

/// Checks a candidate raw byte string against the registry's length
/// constraints: it must be non-empty and at most `BYTEARRAY_LIMIT` bytes.
pub fn validate_did(did: &[u8]) -> (r: Result<(), ValidationError>)
    ensures
        did@.len() == 0 ==> r == Err::<(), ValidationError>(ValidationError::EmptyInput),
        did@.len() > BYTEARRAY_LIMIT ==> r == Err::<(), ValidationError>(ValidationError::TooLong),
        0 < did@.len() <= BYTEARRAY_LIMIT ==> r == Ok::<(), ValidationError>(()),
{
    if did.len() == 0 {
        Err(ValidationError::EmptyInput)
    } else if did.len() > BYTEARRAY_LIMIT {
        Err(ValidationError::TooLong)
    } else {
        Ok(())
    }
}

} // verus!
