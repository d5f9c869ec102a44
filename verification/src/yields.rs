//! For how long, and at what rate, a plan earns yield.

use vstd::prelude::*;

verus! {

/// How many seconds lie between the last sign of life and `now`; none where the clock stands
/// before it.
pub open spec fn seconds_since(last_ping: i64, now: i64) -> int {
    if now > last_ping {
        now - last_ping
    } else {
        0
    }
}

/// How many seconds lie between the last sign of life and `now`.
pub fn elapsed_seconds(last_ping: i64, now: i64) -> (r: u64)
    ensures
        r == seconds_since(last_ping, now),
{
    if now > last_ping {
        (now as i128 - last_ping as i128) as u64
    } else {
        0
    }
}

/// The number that the bits of `x` spell without a sign.
pub open spec fn wrapped_u32(x: i32) -> int {
    if x >= 0 {
        x as int
    } else {
        x + 0x1_0000_0000
    }
}

/// A stored rate as an unsigned number.
pub fn rate_bps(yield_rate_bps: i32) -> (r: u32)
    ensures
        r == wrapped_u32(yield_rate_bps),
{
    assert(yield_rate_bps >= 0 ==> yield_rate_bps as u32 == yield_rate_bps) by (bit_vector);
    assert(yield_rate_bps < 0 ==> yield_rate_bps as u32 == yield_rate_bps + 0x1_0000_0000)
        by (bit_vector);
    yield_rate_bps as u32
}

/// The rate and the number of seconds for which yield accrued since the last sign of life;
/// none where the plan has no rate or never gave a sign of life.
pub fn accrual_terms(yield_rate_bps: i32, last_ping: i64, now: i64) -> (r: Option<(u32, u64)>)
    ensures
        match r {
            None => yield_rate_bps == 0 || last_ping == 0,
            Some((rate, elapsed)) => {
                &&& yield_rate_bps != 0
                &&& last_ping != 0
                &&& rate == wrapped_u32(yield_rate_bps)
                &&& elapsed == seconds_since(last_ping, now)
            },
        },
{
    if yield_rate_bps == 0 || last_ping == 0 {
        return None;
    }
    Some((rate_bps(yield_rate_bps), elapsed_seconds(last_ping, now)))
}

/// The seconds since the last sign of life lead from it to the time of the clock, where that is
/// later; where it is not, there are none.
pub proof fn law_seconds_since(last_ping: i64, now: i64)
    ensures
        now > last_ping ==> last_ping + seconds_since(last_ping, now) == now,
        now <= last_ping ==> seconds_since(last_ping, now) == 0,
{
}

/// A stored rate is taken by its thirty-two bits: the number is one of theirs and differs from
/// the rate by a multiple of two to the thirty-second; a rate that is not negative is itself.
pub proof fn law_rate_bits(rate: i32)
    ensures
        0 <= wrapped_u32(rate) <= u32::MAX,
        (wrapped_u32(rate) - rate) % 0x1_0000_0000 == 0,
        wrapped_u32(rate) == rate as u32,
        rate >= 0 ==> wrapped_u32(rate) == rate,
{
    assert(rate >= 0 ==> rate as u32 == rate) by (bit_vector);
    assert(rate < 0 ==> rate as u32 == rate + 0x1_0000_0000) by (bit_vector);
}

} // verus!
