use vstd::prelude::*;

verus! {

/// The current time in RFC 3339 (`chrono::Utc::now().to_rfc3339()`).
/// Depends on the clock; all that holds of every outcome is its shape's
/// minimum length: a date, a time and a `+00:00` offset.
#[verifier::external_body]
pub fn now_iso8601() -> (r: String)
    ensures
        r@.len() >= 25,
{
    chrono::Utc::now().to_rfc3339()
}

} // verus!
