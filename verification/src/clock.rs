//! The time of day, as text.

use vstd::prelude::*;

verus! {

/// Reads the clock with `chrono::Utc::now` and writes what it gives with
/// `DateTime::to_rfc3339`. Trusted: the text is not empty, since a date, a
/// time and an offset are written whatever the moment. No more is claimed:
/// the text depends on the moment of the call.
#[verifier::external_body]
pub(crate) fn timestamp_now() -> (text: String)
    ensures
        text@.len() > 0,
{
    chrono::Utc::now().to_rfc3339()
}

} // verus!
