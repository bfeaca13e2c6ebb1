use vstd::prelude::*;

verus! {

/// Milliseconds that elapsed between two clock readings. The difference is
/// clamped to `0` when the clock moved backwards and to `u64::MAX` when it
/// does not fit the narrower result type.
pub fn elapsed_between(start_ms: u128, end_ms: u128) -> (r: u64)
    ensures
        end_ms <= start_ms ==> r == 0,
        end_ms > start_ms && end_ms - start_ms <= u64::MAX ==> r == end_ms - start_ms,
        end_ms > start_ms && end_ms - start_ms > u64::MAX ==> r == u64::MAX,
{
    if end_ms <= start_ms {
        0
    } else {
        let d: u128 = end_ms - start_ms;
        if d > u64::MAX as u128 {
            u64::MAX
        } else {
            d as u64
        }
    }
}

/// Current wall-clock time in milliseconds since January 1, 1970.
///
/// Relies on `std::time::SystemTime::now`, read out through
/// `SystemTime::duration_since` and `Duration::as_millis`. The reading
/// depends on the machine's clock, so nothing is promised of the value;
/// a clock standing before the epoch is reported as `0`.
#[verifier::external_body]
pub fn get_time_millis() -> u128 {
    match std::time::SystemTime::now().duration_since(std::time::UNIX_EPOCH) {
        Ok(d) => d.as_millis(),
        Err(_) => 0,
    }
}

} // verus!
