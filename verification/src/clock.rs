//! The clock that dates key generation.

use chrono::Utc;
use vstd::prelude::*;

verus! {

/// A point in time: whole seconds since the Unix epoch, and the nanoseconds
/// past them.
#[derive(Clone, Copy, Debug, PartialEq, Eq, Structural)]
pub struct Timestamp {
    pub seconds: i64,
    pub nanoseconds: u32,
}

/// `chrono::Utc::now`, read off through `DateTime::timestamp` and
/// `DateTime::timestamp_subsec_nanos`. Nothing is known about the time that
/// comes back.
#[verifier::external_body]
pub(crate) fn now() -> (at: Timestamp) {
    let now = Utc::now();
    Timestamp { seconds: now.timestamp(), nanoseconds: now.timestamp_subsec_nanos() }
}

} // verus!
