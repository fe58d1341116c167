//! Limits, steps and roundings of whole numbers.
use vstd::prelude::*;

verus! {

/// The value of `low..=high` that is nearest to `x`.
pub open spec fn limited(x: int, low: int, high: int) -> int {
    if x < low {
        low
    } else if x > high {
        high
    } else {
        x
    }
}

/// The magnitude of a number.
pub open spec fn magnitude(x: int) -> nat {
    if x < 0 {
        (-x) as nat
    } else {
        x as nat
    }
}

/// The magnitude of a number.
pub fn unsigned(x: i32) -> (r: u64)
    ensures
        r == magnitude(x as int),
{
    if x < 0 {
        (-(x as i64)) as u64
    } else {
        x as u64
    }
}

/// The value of `low..=high` that is nearest to `x`.
pub fn limit(x: i64, low: i64, high: i64) -> (r: i64)
    ensures
        r == limited(x as int, low as int, high as int),
{
    if x < low {
        low
    } else if x > high {
        high
    } else {
        x
    }
}

/// The whole number nearest to `n / unit`; of two that are equally near, the
/// even one.
pub open spec fn rounded(n: nat, unit: nat) -> nat {
    let down = n / unit;
    let twice = 2 * (n % unit);
    if twice > unit || (twice == unit && down % 2 == 1) {
        down + 1
    } else {
        down
    }
}

/// Divides to the nearest whole number, ties to the even one.
pub fn round_div(n: u32, unit: u32) -> (r: u64)
    requires
        unit > 0,
    ensures
        r == rounded(n as nat, unit as nat),
{
    let down: u64 = (n / unit) as u64;
    let twice: u64 = 2 * ((n % unit) as u64);
    if twice > unit as u64 || (twice == unit as u64 && down % 2 == 1) {
        down + 1
    } else {
        down
    }
}

// ── Laws ───────────────────────────────────────────────────────────

/// A limited number lies within the limits, and is the number itself if that
/// does; else it is the limit that the number lies beyond.
pub proof fn law_limited(x: int, low: int, high: int)
    requires
        low <= high,
    ensures
        low <= limited(x, low, high) <= high,
        low <= x <= high ==> limited(x, low, high) == x,
        x < low ==> limited(x, low, high) == low,
        x > high ==> limited(x, low, high) == high,
{
}

/// A magnitude is the number or its opposite, whichever is not negative.
pub proof fn law_magnitude(x: int)
    ensures
        x >= 0 ==> magnitude(x) == x,
        x < 0 ==> magnitude(x) == -x,
{
}

/// A rounded quotient is off by at most half a unit, and even where it is off by
/// exactly half.
pub proof fn law_rounded(n: nat, unit: nat)
    requires
        unit > 0,
    ensures
        2 * rounded(n, unit) * unit - unit <= 2 * n <= 2 * rounded(n, unit) * unit + unit,
        2 * n == 2 * rounded(n, unit) * unit + unit || 2 * n == 2 * rounded(n, unit) * unit - unit
            ==> rounded(n, unit) % 2 == 0,
{
    let q = n / unit;
    let r = n % unit;
    assert(n == q * unit + r && 0 <= r < unit) by (nonlinear_arith)
        requires
            unit > 0,
            q == n / unit,
            r == n % unit,
    ;
    assert(2 * q * unit == 2 * (q * unit)) by (nonlinear_arith);
    assert(2 * (q + 1) * unit == 2 * (q * unit) + 2 * unit) by (nonlinear_arith);
}

} // verus!
