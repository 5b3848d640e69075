//! Fixed-point arithmetic: linear re-ranging and the mapping of raw random
//! draws into a range.
use vstd::prelude::*;

verus! {

/// Number of fixed-point units in one whole unit (screen pixel, depth unit).
pub const SCALE: i64 = 100000;

pub open spec fn abs(n: int) -> int {
    if n < 0 { -n } else { n }
}

/// Quotient rounded toward zero, as Rust's integer division and a float's
/// `as` cast to an integer round.
pub open spec fn quot(n: int, d: int) -> int {
    if (n < 0) == (d < 0) { abs(n) / abs(d) } else { -(abs(n) / abs(d)) }
}

/// `value` carried linearly from the range `[start1, stop1]` onto
/// `[start2, stop2]`, the exact rational result rounded toward zero.
pub open spec fn map_spec(value: int, start1: int, stop1: int, start2: int, stop2: int) -> int {
    start2 + quot((stop2 - start2) * (value - start1), stop1 - start1)
}

/// A raw draw folded into `[min, max)`.
pub open spec fn random_spec(raw: u32, min: int, max: int) -> int {
    (raw as int) % (max - min) + min
}

pub(crate) fn quotient(n: i128, d: i128) -> (q: i128)
    requires
        d != 0,
        n > i128::MIN,
        d > i128::MIN,
    ensures
        q == quot(n as int, d as int),
{
    let an: u128 = if n < 0 { (-n) as u128 } else { n as u128 };
    let ad: u128 = if d < 0 { (-d) as u128 } else { d as u128 };
    let m: u128 = an / ad;
    assert(m <= an) by (nonlinear_arith)
        requires
            m == an / ad,
            ad >= 1,
    ;
    if (n < 0) == (d < 0) {
        m as i128
    } else {
        -(m as i128)
    }
}

/// Re-ranges `value` from `[start1, stop1]` onto `[start2, stop2]`, without
/// clamping: `start2 + (stop2 - start2) * (value - start1) / (stop1 - start1)`,
/// rounded toward zero.
pub fn map(value: i64, start1: i64, stop1: i64, start2: i64, stop2: i64) -> (r: i64)
    requires
        start1 != stop1,
        abs((stop2 - start2) * (value - start1)) < i128::MAX,
        i64::MIN <= map_spec(value as int, start1 as int, stop1 as int, start2 as int, stop2 as int)
            <= i64::MAX,
    ensures
        r == map_spec(value as int, start1 as int, stop1 as int, start2 as int, stop2 as int),
{
    let span: i128 = stop2 as i128 - start2 as i128;
    let offset: i128 = value as i128 - start1 as i128;
    let num: i128 = span * offset;
    let den: i128 = stop1 as i128 - start1 as i128;
    let q: i128 = quotient(num, den);
    (start2 as i128 + q) as i64
}

/// Folds a raw 32-bit draw into `[min, max)`: the draw, read as a fixed-point
/// number, taken modulo the width of the range and shifted by `min`.
pub fn random(value: u32, min: i64, max: i64) -> (r: i64)
    requires
        min < max,
        max - min <= i64::MAX,
    ensures
        r == random_spec(value, min as int, max as int),
        min <= r < max,
{
    let width: i64 = max - min;
    let folded: i64 = (value as i64) % width;
    folded + min
}

} // verus!
