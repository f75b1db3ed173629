//! The boundary to the `chrono` crate: the time of day.

use vstd::prelude::*;

verus! {

/// `Utc::now` followed by `DateTime::to_rfc3339`: the current time in UTC as
/// text. Nothing is claimed of what it returns: two calls differ.
#[verifier::external_body]
pub(crate) fn timestamp_now() -> (now: String) {
    chrono::Utc::now().to_rfc3339()
}

} // verus!
