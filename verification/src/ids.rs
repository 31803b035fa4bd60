//! Fresh identifiers for meals and their content entries.
use vstd::prelude::*;

verus! {

/// Relies on uuid::Uuid::new_v4 and its hyphenated text form: a random
/// version-4 identifier written as 36 bytes of lowercase hex and dashes.
/// The value is random, so nothing more than its shape is assumed.
#[verifier::external_body]
pub fn fresh_id() -> (r: Vec<u8>)
    ensures
        r@.len() == 36,
{
    uuid::Uuid::new_v4().to_string().into_bytes()
}

} // verus!
