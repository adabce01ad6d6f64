//! The correlation token generator: one fresh, globally unique token per
//! outstanding request, matching replies to the requests that caused them.

use vstd::prelude::*;

verus! {

/// Produces a fresh correlation token: the hyphenated text of a random
/// 128-bit identifier, collision-resistant to the standard expected of a
/// version-4 identifier. Nothing relates one call's result to another's.
///
/// Relies on `uuid::Uuid::new_v4` and the `Display` of a `Uuid`, which is
/// its hyphenated form: 36 characters, always.
#[verifier::external_body]
pub fn fresh_correlation_token() -> (t: String)
    ensures
        t@.len() == 36,
{
    uuid::Uuid::new_v4().to_string()
}

} // verus!
