//! Bridges to the clock and to identifier generation.  Nothing is promised
//! of these values beyond what holds of every outcome; callers take them as
//! arguments and are verified for every value.

use vstd::prelude::*;
use chrono::Utc;
use uuid::Uuid;

verus! {

/// Relies on std::time::SystemTime: seconds since the epoch, clamped to be
/// non-negative.
#[verifier::external_body]
pub(crate) fn now_epoch_seconds() -> (r: i64)
    ensures
        r >= 0,
{
    match std::time::SystemTime::now().duration_since(std::time::UNIX_EPOCH) {
        Ok(d) => i64::try_from(d.as_secs()).unwrap_or(0),
        Err(_) => 0,
    }
}

/// Relies on chrono's Utc::now and to_rfc2822: the current instant written
/// as an RFC 2822 date line.
#[verifier::external_body]
pub(crate) fn now_rfc2822() -> (r: String)
    ensures
        r@.len() > 0,
{
    Utc::now().to_rfc2822()
}

/// Relies on uuid's new_v4 and its hyphenated text form: 36 characters.
#[verifier::external_body]
pub(crate) fn new_uuid() -> (r: String)
    ensures
        r@.len() == 36,
{
    Uuid::new_v4().to_string()
}

} // verus!
