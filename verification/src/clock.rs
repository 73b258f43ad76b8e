//! Real-time-clock register arithmetic: the clock device exposes a 64-bit
//! nanosecond counter as two 32-bit memory-mapped registers; these functions
//! turn the two register values into the counter and into whole seconds.
//! Reading the registers themselves is a memory-mapped access left to the
//! caller; everything here is plain arithmetic.

use vstd::prelude::*;

verus! {

/// Combine the low and high 32-bit halves of the clock's nanosecond counter
/// into the full 64-bit value `high * 2^32 + low`.
pub fn rtc_counter_ns(low: u32, high: u32) -> (r: u64)
    ensures
        r == (high as u64) * 0x1_0000_0000 + (low as u64),
{
    proof {
        assert(((high as u64) << 32u64) | (low as u64) == (high as u64) * 0x1_0000_0000 + (
        low as u64)) by (bit_vector);
    }
    ((high as u64) << 32u64) | (low as u64)
}

/// Whole seconds represented by a nanosecond counter value.
pub fn counter_seconds(ns: u64) -> (r: u64)
    ensures
        r == ns as int / 1_000_000_000,
{
    ns / 1_000_000_000
}

/// Seconds since the clock's epoch, straight from the two counter registers.
pub fn rtc_seconds(low: u32, high: u32) -> (r: u64)
    ensures
        r == ((high as u64) * 0x1_0000_0000 + (low as u64)) as int / 1_000_000_000,
{
    let ns = rtc_counter_ns(low, high);
    counter_seconds(ns)
}

} // verus!
