//! What a new record takes from outside the ledger: an identifier and the
//! time of its creation.

use chrono::{SecondsFormat, Utc};
use uuid::Uuid;
use vstd::prelude::*;

verus! {

/// Trusted: `Uuid::new_v4`, written in its hyphenated text form. The value is
/// random: nothing is claimed of it.
#[verifier::external_body]
pub(crate) fn new_id() -> (id: String) {
    Uuid::new_v4().to_string()
}

/// Trusted: `Utc::now`, written as an ISO-8601 (RFC 3339) text in UTC, such
/// as `2023-01-01T12:00:00.123456Z`. The value is the machine's clock: nothing
/// is claimed of it.
#[verifier::external_body]
pub(crate) fn now() -> (timestamp: String) {
    Utc::now().to_rfc3339_opts(SecondsFormat::AutoSi, true)
}

} // verus!
