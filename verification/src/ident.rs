//! Fresh identifiers for new rows, drawn through `uuid`.

use vstd::prelude::*;

verus! {

/// Trusted: `uuid::Uuid::new_v4` written out by the `Display` of `Uuid`, which
/// is the hyphenated form of 36 characters. Which identifier comes back is
/// left open: it is drawn at random.
#[verifier::external_body]
pub(crate) fn fresh_id() -> (id: String)
    ensures
        id@.len() == 36,
{
    uuid::Uuid::new_v4().to_string()
}

} // verus!
