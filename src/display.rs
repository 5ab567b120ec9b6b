//! Figures shown in the leaderboard tables.

use vstd::prelude::*;

verus! {

/// Rust's `/` on integers: the quotient rounded toward zero.
pub open spec fn div_trunc(a: int, b: int) -> int {
    if a >= 0 {
        a / b
    } else {
        -((-a) / b)
    }
}

/// Rust's `%` on integers: the remainder with the sign of `a`.
pub open spec fn rem_trunc(a: int, b: int) -> int {
    a - b * div_trunc(a, b)
}

/// The hours, minutes and seconds shown for a duration of `seconds`: each
/// field taken modulo 60, as the tables print them.
pub fn clock_parts(seconds: i64) -> (r: (i64, i64, i64))
    ensures
        r.0 == rem_trunc(div_trunc(seconds as int, 3600), 60),
        r.1 == rem_trunc(div_trunc(seconds as int, 60), 60),
        r.2 == rem_trunc(seconds as int, 60),
{
    (seconds / 3600 % 60, seconds / 60 % 60, seconds % 60)
}

/// The average time per star: the total itself without stars, else the total
/// divided by the stars, rounded toward zero.
pub fn average_seconds(total: i64, stars: i32) -> (r: i64)
    requires
        stars >= 0,
    ensures
        stars == 0 ==> r == total,
        stars != 0 ==> r == div_trunc(total as int, stars as int),
{
    if stars == 0 {
        total
    } else {
        total / (stars as i64)
    }
}

} // verus!
