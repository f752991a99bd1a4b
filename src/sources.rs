use vstd::prelude::*;

verus! {

/// Timestamps are milliseconds since the Unix epoch, in UTC. Every instant
/// that chrono can represent (years -262144 to 262143) lies strictly
/// between the negation of this bound and the bound.
pub const TIMESTAMP_BOUND: i64 = 10_000_000_000_000_000;

/// Relies on chrono's `Utc::now` and `DateTime::timestamp_millis`: the current
/// time, as milliseconds since the epoch, within chrono's range.
#[verifier::external_body]
pub(crate) fn now_millis() -> (r: i64)
    ensures
        -TIMESTAMP_BOUND < r < TIMESTAMP_BOUND,
{
    chrono::Utc::now().timestamp_millis()
}

/// Relies on uuid's `Uuid::new_v4` and its hyphenated `Display` form: a fresh
/// random identifier of 36 characters.
#[verifier::external_body]
pub(crate) fn fresh_id() -> (r: String)
    ensures
        r@.len() == 36,
{
    uuid::Uuid::new_v4().to_string()
}

} // verus!
