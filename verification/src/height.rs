//! The fixed-point height scale and the blending arithmetic of the
//! diamond-square step: the four-neighbour average and the roughness mix.

use vstd::prelude::*;

verus! {

/// One height unit: the fixed-point representation of the height `1`.
/// A 16-bit noise sample maps one-to-one onto `[0, HEIGHT_ONE]`.
pub const HEIGHT_ONE: i64 = 65_535;

/// The largest magnitude a stored height may have (`2^46` units). Hooks
/// may push heights outside `[0, HEIGHT_ONE]`, but the blending
/// arithmetic of a 64-bit cell forces a bound somewhere; this one leaves
/// room for every intermediate product.
pub const HEIGHT_LIMIT: i64 = 70_368_744_177_664;

/// Floor division of a bounded `i64` by a small positive divisor.
/// (`/` on `int` is Euclidean division, which is floor division for a
/// positive divisor.)
pub fn div_down(n: i64, d: i64) -> (r: i64)
    requires
        1 <= d <= 0x1_0000_0000,
        -0x4000_0000_0000_0000 <= n <= 0x4000_0000_0000_0000,
    ensures
        r == n as int / d as int,
{
    proof {
        vstd::arithmetic::div_mod::lemma_fundamental_div_mod(n as int, d as int);
        vstd::arithmetic::div_mod::lemma_mod_bound(n as int, d as int);
        let q = n as int / d as int;
        let m = n as int % d as int;
        assert(i64::MIN < q < i64::MAX) by (nonlinear_arith)
            requires
                d as int * q + m == n as int,
                0 <= m < d as int,
                1 <= d as int <= 0x1_0000_0000,
                -0x4000_0000_0000_0000 <= n as int <= 0x4000_0000_0000_0000,
        ;
    }
    n.checked_div_euclid(d).unwrap()
}

/// Bounds carry through floor division by a positive divisor.
pub proof fn lemma_div_bounds(n: int, d: int, b: int)
    requires
        d >= 1,
        b >= 0,
        -b * d <= n <= b * d,
    ensures
        -b <= n / d <= b,
{
    vstd::arithmetic::div_mod::lemma_fundamental_div_mod(n, d);
    vstd::arithmetic::div_mod::lemma_mod_bound(n, d);
    let q = n / d;
    let m = n % d;
    assert(-b <= q <= b) by (nonlinear_arith)
        requires
            d * q + m == n,
            0 <= m < d,
            d >= 1,
            b >= 0,
            -b * d <= n <= b * d,
    ;
}

/// The average of the four gathered neighbour heights.
pub open spec fn avg4_spec(h0: int, h1: int, h2: int, h3: int) -> int {
    (h0 + h1 + h2 + h3) / 4
}

/// The blending mix before the post hook: the jitter sample and the
/// neighbour average, weighted by the roughness `r` on the
/// `[0, HEIGHT_ONE]` scale.
pub open spec fn mix_spec(r: int, rand16: int, avg: int) -> int {
    (r * rand16 + (HEIGHT_ONE - r) * avg) / (HEIGHT_ONE as int)
}

/// The average of four bounded heights stays bounded.
pub proof fn lemma_avg4_bounds(h0: int, h1: int, h2: int, h3: int, b: int)
    requires
        b >= 0,
        -b <= h0 <= b,
        -b <= h1 <= b,
        -b <= h2 <= b,
        -b <= h3 <= b,
    ensures
        -b <= avg4_spec(h0, h1, h2, h3) <= b,
{
    lemma_div_bounds(h0 + h1 + h2 + h3, 4, b);
}

/// The average of four heights in `[0, b]` stays in `[0, b]`.
pub proof fn lemma_avg4_range(h0: int, h1: int, h2: int, h3: int, b: int)
    requires
        b >= 0,
        0 <= h0 <= b,
        0 <= h1 <= b,
        0 <= h2 <= b,
        0 <= h3 <= b,
    ensures
        0 <= avg4_spec(h0, h1, h2, h3) <= b,
{
    vstd::arithmetic::div_mod::lemma_fundamental_div_mod(h0 + h1 + h2 + h3, 4);
    vstd::arithmetic::div_mod::lemma_mod_bound(h0 + h1 + h2 + h3, 4);
    let q = (h0 + h1 + h2 + h3) / 4;
    assert(0 <= q <= b) by (nonlinear_arith)
        requires
            4 * q + (h0 + h1 + h2 + h3) % 4 == h0 + h1 + h2 + h3,
            0 <= (h0 + h1 + h2 + h3) % 4 < 4,
            0 <= h0 + h1 + h2 + h3 <= 4 * b,
            b >= 0,
    ;
}

/// The mix is a convex combination: it stays between its operands'
/// bounds.
pub proof fn lemma_mix_bounds(r: int, rand16: int, avg: int)
    requires
        0 <= r <= HEIGHT_ONE as int,
        0 <= rand16 <= HEIGHT_ONE as int,
        -HEIGHT_LIMIT as int <= avg <= HEIGHT_LIMIT as int,
    ensures
        -HEIGHT_LIMIT as int <= mix_spec(r, rand16, avg) <= HEIGHT_LIMIT as int,
{
    let one = HEIGHT_ONE as int;
    let lim = HEIGHT_LIMIT as int;
    assert(-lim * one <= r * rand16 + (one - r) * avg <= lim * one) by (nonlinear_arith)
        requires
            0 <= r <= one,
            0 <= rand16 <= one,
            -lim <= avg <= lim,
            one == 65_535,
            lim == 70_368_744_177_664,
    ;
    lemma_div_bounds(r * rand16 + (one - r) * avg, one, lim);
}

/// With both operands in `[0, HEIGHT_ONE]` the mix stays there too.
pub proof fn lemma_mix_range(r: int, rand16: int, avg: int)
    requires
        0 <= r <= HEIGHT_ONE as int,
        0 <= rand16 <= HEIGHT_ONE as int,
        0 <= avg <= HEIGHT_ONE as int,
    ensures
        0 <= mix_spec(r, rand16, avg) <= HEIGHT_ONE as int,
{
    let one = HEIGHT_ONE as int;
    let n = r * rand16 + (one - r) * avg;
    assert(0 <= r * rand16 <= r * one) by (nonlinear_arith)
        requires
            0 <= r <= one,
            0 <= rand16 <= one,
    ;
    assert(0 <= (one - r) * avg <= (one - r) * one) by (nonlinear_arith)
        requires
            0 <= r <= one,
            0 <= avg <= one,
    ;
    assert(r * one + (one - r) * one == one * one) by (nonlinear_arith);
    assert(0 <= n <= one * one);
    vstd::arithmetic::div_mod::lemma_fundamental_div_mod(n, one);
    vstd::arithmetic::div_mod::lemma_mod_bound(n, one);
    let q = n / one;
    assert(0 <= q <= one) by (nonlinear_arith)
        requires
            one * q + n % one == n,
            0 <= n % one < one,
            0 <= n <= one * one,
            one == 65_535,
    ;
}

/// Computes the four-neighbour average.
pub fn avg4(h0: i64, h1: i64, h2: i64, h3: i64) -> (r: i64)
    requires
        -HEIGHT_LIMIT <= h0 <= HEIGHT_LIMIT,
        -HEIGHT_LIMIT <= h1 <= HEIGHT_LIMIT,
        -HEIGHT_LIMIT <= h2 <= HEIGHT_LIMIT,
        -HEIGHT_LIMIT <= h3 <= HEIGHT_LIMIT,
    ensures
        r == avg4_spec(h0 as int, h1 as int, h2 as int, h3 as int),
        -HEIGHT_LIMIT <= r <= HEIGHT_LIMIT,
{
    let sum = h0 + h1 + h2 + h3;
    proof {
        lemma_div_bounds(sum as int, 4, HEIGHT_LIMIT as int);
    }
    div_down(sum, 4)
}

/// Computes the mix; a convex combination, so the result stays within
/// the bounds of its two operands.
pub fn mix(r: u16, rand16: u16, avg: i64) -> (res: i64)
    requires
        -HEIGHT_LIMIT <= avg <= HEIGHT_LIMIT,
    ensures
        res == mix_spec(r as int, rand16 as int, avg as int),
        -HEIGHT_LIMIT <= res <= HEIGHT_LIMIT,
{
    proof {
        let ri = r as int;
        let si = rand16 as int;
        let ai = avg as int;
        let one = HEIGHT_ONE as int;
        let lim = HEIGHT_LIMIT as int;
        assert(0 <= ri * si <= one * one) by (nonlinear_arith)
            requires
                0 <= ri <= one,
                0 <= si <= one,
        ;
        assert(-one * lim <= (one - ri) * ai <= one * lim) by (nonlinear_arith)
            requires
                0 <= ri <= one,
                -lim <= ai <= lim,
        ;
        assert(-lim * one <= ri * si + (one - ri) * ai <= lim * one) by (nonlinear_arith)
            requires
                0 <= ri <= one,
                0 <= si <= one,
                -lim <= ai <= lim,
                one == 65_535,
                lim == 70_368_744_177_664,
        ;
    }
    let n = (r as i64) * (rand16 as i64) + (HEIGHT_ONE - r as i64) * avg;
    proof {
        lemma_div_bounds(n as int, HEIGHT_ONE as int, HEIGHT_LIMIT as int);
    }
    div_down(n, HEIGHT_ONE)
}

/// A 16-bit sample rescaled linearly from `[0, u16::MAX]` onto the
/// height range `[min, max]`.
pub open spec fn to_range_spec(min: int, max: int, h: u16) -> int {
    min + (h as int) * (max - min) / 65535
}

/// Rescales a 16-bit sample onto `[min, max]`.
pub fn to_range(min: i64, max: i64, h: u16) -> (r: i64)
    requires
        -HEIGHT_LIMIT <= min <= max <= HEIGHT_LIMIT,
        max - min <= HEIGHT_LIMIT,
    ensures
        r == to_range_spec(min as int, max as int, h),
        min <= r <= max,
{
    let d = max - min;
    proof {
        let n = (h as int) * (d as int);
        assert(0 <= (h as int) * (d as int) <= 65535 * (d as int)) by (nonlinear_arith)
            requires
                0 <= h <= 65535,
                0 <= d as int,
        ;
        vstd::arithmetic::div_mod::lemma_fundamental_div_mod(n, 65535);
        vstd::arithmetic::div_mod::lemma_mod_bound(n, 65535);
        assert(0 <= n / 65535 <= d as int) by (nonlinear_arith)
            requires
                65535 * (n / 65535) + n % 65535 == n,
                0 <= n % 65535 < 65535,
                0 <= n <= 65535 * (d as int),
        ;
    }
    let q = div_down((h as i64) * d, 65535);
    min + q
}

/// The grayscale intensity of a height: `255` is full brightness at
/// `HEIGHT_ONE`, saturating at the ends of the byte range.
pub open spec fn luma_spec(h: int) -> int {
    let v = 255 * h / (HEIGHT_ONE as int);
    if v < 0 {
        0
    } else if v > 255 {
        255
    } else {
        v
    }
}

/// Computes the grayscale intensity of a height, for rendering.
pub fn luma_of_height(h: i64) -> (r: u8)
    requires
        -HEIGHT_LIMIT <= h <= HEIGHT_LIMIT,
    ensures
        r == luma_spec(h as int),
{
    let v = div_down(255 * h, HEIGHT_ONE);
    if v < 0 {
        0
    } else if v > 255 {
        255
    } else {
        v as u8
    }
}

} // verus!
