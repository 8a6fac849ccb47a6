//! Wall-clock access. Every decision that involves time takes the reading as
//! a plain argument, so the clock is consulted only here.

use vstd::prelude::*;

verus! {

/// Relies on std::time::SystemTime to read the Unix clock in milliseconds.
/// Nothing is promised of the reading; a clock before the epoch reads as
/// zero.
#[verifier::external_body]
pub fn get_timestamp() -> (t: u128)
{
    std::time::SystemTime::now()
        .duration_since(std::time::UNIX_EPOCH)
        .map(|d| d.as_millis())
        .unwrap_or(0)
}

} // verus!
