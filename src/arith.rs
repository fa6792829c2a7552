//! Integer helpers for the fixed-point model: square roots, scaling by a
//! fraction with rounding toward zero, and saturation.

use vstd::prelude::*;

verus! {

/// `s` is the whole part of the square root of `n`.
pub open spec fn is_floor_sqrt(n: int, s: int) -> bool {
    0 <= s && s * s <= n && n < (s + 1) * (s + 1)
}

/// The whole part of the square root of `n` (for `n >= 0`).
pub open spec fn floor_sqrt(n: int) -> int {
    choose|s: int| is_floor_sqrt(n, s)
}

/// The square root of `n` rounded to the nearest whole number.
pub open spec fn round_sqrt(n: int) -> int {
    let s = floor_sqrt(n);
    if n > s * s + s {
        s + 1
    } else {
        s
    }
}

/// `v * num / den`, rounded toward zero.
pub open spec fn scale_toward_zero(v: int, num: int, den: int) -> int {
    if v >= 0 {
        v * num / den
    } else {
        -((-v) * num / den)
    }
}

/// The absolute value of `v`.
pub open spec fn magnitude(v: int) -> int {
    if v >= 0 {
        v
    } else {
        -v
    }
}

/// `v` held within `[-lim, lim]`.
pub open spec fn saturate(v: int, lim: int) -> int {
    if v > lim {
        lim
    } else if v < -lim {
        -lim
    } else {
        v
    }
}

/// The whole part of a square root is unique.
pub proof fn lemma_floor_sqrt_is(n: int, s: int)
    requires
        is_floor_sqrt(n, s),
    ensures
        floor_sqrt(n) == s,
{
    let t = floor_sqrt(n);
    assert(is_floor_sqrt(n, t));
    if t < s {
        assert((t + 1) * (t + 1) <= s * s) by (nonlinear_arith)
            requires
                0 <= t,
                t + 1 <= s,
        ;
    } else if s < t {
        assert((s + 1) * (s + 1) <= t * t) by (nonlinear_arith)
            requires
                0 <= s,
                s + 1 <= t,
        ;
    }
}

/// The whole part of the square root of `n`.
pub fn isqrt(n: u64) -> (r: u64)
    requires
        n < 0x4000_0000_0000_0000,
    ensures
        r == floor_sqrt(n as int),
        is_floor_sqrt(n as int, r as int),
{
    let mut lo: u64 = 0;
    let mut hi: u64 = 0x8000_0000;
    assert(0x8000_0000u64 * 0x8000_0000u64 == 0x4000_0000_0000_0000u64) by (nonlinear_arith);
    while hi - lo > 1
        invariant
            lo < hi <= 0x8000_0000,
            lo * lo <= n,
            n < hi * hi,
        decreases hi - lo,
    {
        let mid = lo + (hi - lo) / 2;
        assert(mid * mid <= 0x4000_0000_0000_0000) by (nonlinear_arith)
            requires
                mid <= 0x8000_0000,
        ;
        if mid * mid <= n {
            lo = mid;
        } else {
            hi = mid;
        }
    }
    proof {
        lemma_floor_sqrt_is(n as int, lo as int);
    }
    lo
}

/// Every `n >= 0` has a whole square root.
pub proof fn lemma_floor_sqrt_exists(n: int)
    requires
        0 <= n,
    ensures
        is_floor_sqrt(n, floor_sqrt(n)),
    decreases n,
{
    if n == 0 {
        assert(is_floor_sqrt(0, 0));
    } else {
        lemma_floor_sqrt_exists(n - 1);
        let s = floor_sqrt(n - 1);
        if (s + 1) * (s + 1) <= n {
            assert(n < (s + 2) * (s + 2)) by (nonlinear_arith)
                requires
                    n - 1 < (s + 1) * (s + 1),
                    0 <= s,
            ;
            assert(is_floor_sqrt(n, s + 1));
        } else {
            assert(is_floor_sqrt(n, s));
        }
    }
}

/// A number at least `k * k` has a rounded square root at least `k`.
pub proof fn lemma_round_sqrt_at_least(n: int, k: int)
    requires
        0 <= k,
        k * k <= n,
    ensures
        round_sqrt(n) >= k,
{
    assert(0 <= k * k) by (nonlinear_arith)
        requires
            0 <= k,
    ;
    lemma_floor_sqrt_exists(n);
    let s = floor_sqrt(n);
    if s < k {
        assert((s + 1) * (s + 1) <= k * k) by (nonlinear_arith)
            requires
                0 <= s,
                s + 1 <= k,
        ;
    }
}

/// The square root of `n` rounded to the nearest whole number.
pub fn rounded_sqrt(n: u64) -> (r: u64)
    requires
        n < 0x4000_0000_0000_0000,
    ensures
        r == round_sqrt(n as int),
{
    let s = isqrt(n);
    assert(s * s + s < 0x4000_0000_0000_0000) by (nonlinear_arith)
        requires
            s * s <= n,
            n < (s + 1) * (s + 1),
            n < 0x4000_0000_0000_0000,
    ;
    if n > s * s + s {
        s + 1
    } else {
        s
    }
}

/// `v * num / den`, rounded toward zero.
pub fn scale(v: i64, num: i64, den: i64) -> (r: i64)
    requires
        -0x4_0000_0000_0000 <= v <= 0x4_0000_0000_0000,
        0 <= num <= 0x400,
        0 < den,
    ensures
        r == scale_toward_zero(v as int, num as int, den as int),
        r * den <= magnitude(v as int) * num,
        -(magnitude(v as int) * num) <= r * den,
{
    let m: i64 = if v >= 0 { v } else { -v };
    assert(m * num <= 0x4_0000_0000_0000 * num) by (nonlinear_arith)
        requires
            0 <= m <= 0x4_0000_0000_0000,
            0 <= num,
    ;
    assert(0 <= m * num) by (nonlinear_arith)
        requires
            0 <= m,
            0 <= num,
    ;
    let q = m * num / den;
    assert(0 <= q && q * den <= m * num) by (nonlinear_arith)
        requires
            q == (m * num) as int / den as int,
            0 <= m * num,
            0 < den,
    ;
    assert((-q) * den == -(q * den)) by (nonlinear_arith);
    assert(magnitude(v as int) == m);
    if v >= 0 {
        q
    } else {
        -q
    }
}

/// `v` held within `[-lim, lim]`.
pub fn saturating(v: i64, lim: i64) -> (r: i64)
    requires
        0 <= lim,
    ensures
        r == saturate(v as int, lim as int),
{
    if v > lim {
        lim
    } else if v < -lim {
        -lim
    } else {
        v
    }
}

} // verus!
