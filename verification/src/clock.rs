//! The wall clock, read through `chrono`. Nothing here is proved: these are
//! the statements about `chrono` that the rest of the crate relies on.

use chrono::{NaiveDateTime, TimeDelta, Utc};
use vstd::prelude::*;

verus! {

/// `chrono::NaiveDateTime`: a date and time of day without a time zone.
/// Nothing inside it is looked into.
#[verifier::external_type_specification]
#[verifier::external_body]
pub struct ExNaiveDateTime(NaiveDateTime);

/// `chrono::TimeDelta`: a span of time, which may be negative. Nothing
/// inside it is looked into.
#[verifier::external_type_specification]
#[verifier::external_body]
pub struct ExTimeDelta(TimeDelta);

/// `chrono::Utc::now`, as a date and time in UTC without its offset. Nothing
/// is said of the instant that comes back: it is whatever the system clock
/// shows. `chrono` panics if that clock is set before 1970.
#[verifier::external_body]
pub(crate) fn utc_now() -> (now: NaiveDateTime) {
    Utc::now().naive_utc()
}

/// `chrono::NaiveDateTime::signed_duration_since`: the time from `earlier`
/// to `later`, negative if `later` comes first. It never fails; nothing more
/// is claimed of it.
pub assume_specification[ NaiveDateTime::signed_duration_since ](
    later: NaiveDateTime,
    earlier: NaiveDateTime,
) -> (span: TimeDelta)
;

/// `chrono::TimeDelta::num_days`: the whole days in a span. No claim is made
/// of the number.
pub assume_specification[ TimeDelta::num_days ](span: &TimeDelta) -> (days: i64)
;

/// `chrono::TimeDelta::num_hours`: the whole hours in a span. No claim is
/// made of the number.
pub assume_specification[ TimeDelta::num_hours ](span: &TimeDelta) -> (hours: i64)
;

/// `chrono::TimeDelta::num_minutes`: the whole minutes in a span. No claim is
/// made of the number.
pub assume_specification[ TimeDelta::num_minutes ](span: &TimeDelta) -> (minutes: i64)
;

/// `chrono::TimeDelta::num_seconds`: the whole seconds in a span. No claim is
/// made of the number.
pub assume_specification[ TimeDelta::num_seconds ](span: &TimeDelta) -> (seconds: i64)
;

} // verus!
