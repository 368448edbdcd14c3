//! Validation and use of the polling setting.
use vstd::prelude::*;

verus! {

/// Is `secs` an acceptable polling interval (1 to 300 seconds)?
pub fn valid_poll_interval(secs: u32) -> (r: bool)
    ensures
        r == (1 <= secs <= 300),
{
    1 <= secs && secs <= 300
}

/// The polling interval to wait: the saved setting, or 5 seconds when none could be
/// read, kept between 1 and 300 seconds.
pub fn poll_interval_secs(saved: Option<u32>) -> (r: u64)
    ensures
        r == match saved {
            Some(s) => if s < 1 {
                1
            } else if s > 300 {
                300
            } else {
                s as int
            },
            None => 5,
        },
{
    let s = match saved {
        Some(s) => s,
        None => 5,
    };
    if s < 1 {
        1
    } else if s > 300 {
        300
    } else {
        s as u64
    }
}

} // verus!
