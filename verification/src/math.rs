//! Fixed-point scalars: saturation, clamping, square roots and division
//! that rounds away from zero.

use vstd::prelude::*;

verus! {

/// Number of fixed-point steps in one world unit.
pub const SCALE: i32 = 1000;

/// The value of `v` forced into the range of a coordinate.
pub open spec fn saturated(v: int) -> int {
    if v < i32::MIN as int {
        i32::MIN as int
    } else if v > i32::MAX as int {
        i32::MAX as int
    } else {
        v
    }
}

/// Forces a wide intermediate result back into the range of a coordinate.
pub fn saturate(v: i128) -> (r: i32)
    ensures
        r as int == saturated(v as int),
{
    if v < -2147483648i128 {
        -2147483648i32
    } else if v > 2147483647i128 {
        2147483647i32
    } else {
        v as i32
    }
}

/// `v` limited from above by `hi` first, then from below by `lo`.
pub open spec fn clamped(v: int, lo: int, hi: int) -> int {
    let capped = if v < hi { v } else { hi };
    if capped > lo { capped } else { lo }
}

/// Limits `v` to `[lo, hi]`. When the interval is empty (`lo > hi`) the lower
/// end wins.
pub fn clamp(v: i32, lo: i32, hi: i32) -> (r: i32)
    ensures
        r as int == clamped(v as int, lo as int, hi as int),
        lo <= hi ==> lo <= r <= hi,
        lo <= v <= hi ==> r == v,
{
    let capped: i32 = if v < hi { v } else { hi };
    if capped > lo { capped } else { lo }
}

/// `r` is the square root of `n`, rounded down.
pub open spec fn is_sqrt_floor(n: int, r: int) -> bool {
    0 <= r && r * r <= n && n < (r + 1) * (r + 1)
}

/// The largest `r` with `r * r <= n`.
pub open spec fn sqrt_floor(n: int) -> int
    recommends
        n >= 0,
{
    choose|r: int| is_sqrt_floor(n, r)
}

/// Two candidates for the integer square root of one number coincide.
pub proof fn lemma_sqrt_unique(n: int, a: int, b: int)
    requires
        is_sqrt_floor(n, a),
        is_sqrt_floor(n, b),
    ensures
        a == b,
{
    if a < b {
        assert((a + 1) * (a + 1) <= b * b) by (nonlinear_arith)
            requires
                0 <= a,
                a + 1 <= b,
        ;
    } else if b < a {
        assert((b + 1) * (b + 1) <= a * a) by (nonlinear_arith)
            requires
                0 <= b,
                b + 1 <= a,
        ;
    }
}

/// Every number that is not negative has a square root: `sqrt_floor` of it
/// is its square root, rounded down.
pub proof fn lemma_sqrt_floor_exists(n: int)
    requires
        n >= 0,
    ensures
        is_sqrt_floor(n, sqrt_floor(n)),
    decreases n,
{
    if n == 0 {
        assert(is_sqrt_floor(0, 0));
    } else {
        lemma_sqrt_floor_exists(n - 1);
        let r = sqrt_floor(n - 1);
        if n < (r + 1) * (r + 1) {
            assert(is_sqrt_floor(n, r));
        } else {
            assert((r + 2) * (r + 2) > (r + 1) * (r + 1)) by (nonlinear_arith)
                requires
                    r >= 0,
            ;
            assert(is_sqrt_floor(n, r + 1));
        }
    }
}

/// Integer square root, rounded down.
pub fn isqrt(n: u128) -> (r: u64)
    ensures
        r as int == sqrt_floor(n as int),
        is_sqrt_floor(n as int, r as int),
{
    let mut lo: u128 = 0;
    let mut hi: u128 = 18446744073709551616u128;
    assert((hi as int) * (hi as int) > n as int) by (nonlinear_arith)
        requires
            hi as int == 18446744073709551616int,
            (n as int) < 340282366920938463463374607431768211456int,
    ;
    while hi - lo > 1
        invariant
            lo < hi <= 18446744073709551616u128,
            (lo as int) * (lo as int) <= n as int,
            (n as int) < (hi as int) * (hi as int),
        decreases hi - lo,
    {
        let mid: u128 = lo + (hi - lo) / 2;
        assert((mid as int) * (mid as int) <= 18446744073709551615int * 18446744073709551615int)
            by (nonlinear_arith)
            requires
                0 <= mid as int <= 18446744073709551615int,
        ;
        if mid * mid <= n {
            lo = mid;
        } else {
            hi = mid;
        }
    }
    proof {
        assert(hi as int == lo as int + 1);
        assert(is_sqrt_floor(n as int, lo as int));
        lemma_sqrt_unique(n as int, lo as int, sqrt_floor(n as int));
    }
    lo as u64
}

/// `n / d`, rounded away from zero.
pub open spec fn div_away(n: int, d: int) -> int
    recommends
        d > 0,
{
    if n > 0 {
        (n - 1) / d + 1
    } else if n < 0 {
        -((-n - 1) / d + 1)
    } else {
        0
    }
}

/// The quotient `div_away(n, d)` is the least magnitude whose multiple by `d`
/// covers `n`, and carries the sign of `n`.
pub proof fn lemma_div_away_bounds(n: int, d: int)
    requires
        d > 0,
    ensures
        n > 0 ==> div_away(n, d) > 0 && div_away(n, d) * d >= n && (div_away(n, d) - 1) * d < n,
        n < 0 ==> div_away(n, d) < 0 && div_away(n, d) * d <= n && (div_away(n, d) + 1) * d > n,
        n == 0 ==> div_away(n, d) == 0,
        div_away(-n, d) == -div_away(n, d),
{
    if n > 0 {
        let q = (n - 1) / d;
        assert(q * d <= n - 1 < (q + 1) * d && q >= 0) by (nonlinear_arith)
            requires
                q == (n - 1) / d,
                d > 0,
                n - 1 >= 0,
        ;
        assert((q + 1) * d == q * d + d) by (nonlinear_arith);
    } else if n < 0 {
        let m = -n;
        let q = (m - 1) / d;
        assert(q * d <= m - 1 < (q + 1) * d && q >= 0) by (nonlinear_arith)
            requires
                q == (m - 1) / d,
                d > 0,
                m - 1 >= 0,
        ;
        assert((q + 1) * d == q * d + d) by (nonlinear_arith);
        assert((-(q + 1)) * d == -(q * d + d)) by (nonlinear_arith);
        assert((-(q + 1) + 1) * d == -(q * d)) by (nonlinear_arith);
    }
}

/// Divides by a positive number, rounding away from zero.
pub fn div_round_away(n: i128, d: i128) -> (q: i128)
    requires
        d > 0,
    ensures
        q as int == div_away(n as int, d as int),
{
    if n > 0 {
        let q: i128 = (n - 1) / d;
        assert(q as int <= n as int - 1) by (nonlinear_arith)
            requires
                q as int == (n as int - 1) / (d as int),
                d as int > 0,
                n as int - 1 >= 0,
        ;
        q + 1
    } else if n < 0 {
        let m: i128 = -(n + 1);
        let q: i128 = m / d;
        assert(0 <= q as int <= m as int) by (nonlinear_arith)
            requires
                q as int == (m as int) / (d as int),
                d as int > 0,
                m as int >= 0,
        ;
        -q - 1
    } else {
        0
    }
}

} // verus!
