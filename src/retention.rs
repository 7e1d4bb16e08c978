//! Expiry rules for stored browsing data.
use vstd::prelude::*;

verus! {

/// Whether a cookie that expires at `expires_at` (milliseconds since the
/// Unix epoch; `None` for a session cookie) has expired at `now`.
pub fn cookie_expired(expires_at: Option<i64>, now: i64) -> (r: bool)
    ensures
        r == (expires_at matches Some(e) && e < now),
{
    match expires_at {
        Some(e) => e < now,
        None => false,
    }
}

} // verus!
