//! The time at which a branch was created.

use chrono::{NaiveDateTime, Utc};
use vstd::prelude::*;

verus! {

/// `chrono::NaiveDateTime`, here always a time in UTC, carried as an opaque value.
#[verifier::external_type_specification]
#[verifier::external_body]
pub struct ExNaiveDateTime(NaiveDateTime);

/// `chrono::Utc::now`, as a date and time in UTC. Nothing is promised of the time that it gives:
/// the system's clock decides. Where that clock stands before the year 1970, the call panics.
#[verifier::external_body]
pub(crate) fn now() -> (res: NaiveDateTime) {
    Utc::now().naive_utc()
}

} // verus!
