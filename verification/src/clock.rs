use vstd::prelude::*;

verus! {

/// Seconds since the Unix epoch, read from the system clock.
///
/// Trusted: `std::time::SystemTime::now` followed by `duration_since(UNIX_EPOCH)`,
/// giving 0 when the clock reads before the epoch. The value depends on the
/// clock, so nothing is stated of it.
#[verifier::external_body]
pub fn unix_time_now() -> u64 {
    std::time::SystemTime::now()
        .duration_since(std::time::UNIX_EPOCH)
        .unwrap_or_default()
        .as_secs()
}

} // verus!
