//! Fresh identifiers.

use vstd::prelude::*;

verus! {

/// `uuid::Uuid::new_v4` followed by the identifier's `to_string`: a random
/// version-4 UUID in its hyphenated lower-case form. The text differs from
/// call to call; its length is the 36 characters of that form.
#[verifier::external_body]
pub(crate) fn fresh_id() -> (id: String)
    ensures
        id@.len() == 36,
{
    uuid::Uuid::new_v4().to_string()
}

} // verus!
