//! Fresh record identifiers and creation timestamps.

use vstd::prelude::*;

verus! {

/// Relies on uuid::Uuid::new_v4: a random identifier, in its hyphenated form.
#[verifier::external_body]
pub(crate) fn new_record_id() -> (r: String) {
    uuid::Uuid::new_v4().to_string()
}

/// Relies on chrono::Utc::now and DateTime::to_rfc3339: the current time as an
/// RFC 3339 timestamp.
#[verifier::external_body]
pub(crate) fn now_rfc3339() -> (r: String) {
    chrono::Utc::now().to_rfc3339()
}

} // verus!
