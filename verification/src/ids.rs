use vstd::prelude::*;

verus! {

/// Relies on `uuid::Uuid::new_v4` and the `Display` impl of `Uuid`:
/// a fresh random version-4 uuid, rendered in its hyphenated form,
/// which is always 36 characters. The value itself is random, so
/// nothing more is promised of it.
#[verifier::external_body]
pub(crate) fn fresh_uuid() -> (id: String)
    ensures
        id@.len() == 36,
{
    uuid::Uuid::new_v4().to_string()
}

} // verus!
