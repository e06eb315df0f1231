//! Drawing candidate handles.
//!
//! A handle is an opaque string identifying one entry of a store. Candidates
//! come from a random generator; nothing is assumed of a draw beyond its
//! shape, so the stores themselves check freshness before an insert.

use vstd::prelude::*;

verus! {

/// Relies on `uuid::Uuid::new_v4` and the `Display` form of `uuid::Uuid`:
/// a freshly drawn random identifier, rendered in the hyphenated format,
/// which is exactly 36 characters long. The draw is random, so nothing
/// relates one call's result to another's.
#[verifier::external_body]
pub(crate) fn random_identifier() -> (r: String)
    ensures
        r@.len() == 36,
{
    uuid::Uuid::new_v4().to_string()
}

} // verus!
