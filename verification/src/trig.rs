//! Integer trigonometry: square roots and CORDIC evaluations of
//! atan2, cosine and sine on `Q32` fixed-point angles.
//!
//! Every executable function here mirrors a spec function step for step, so
//! callers get an exact functional contract; how close the results come to
//! the real functions is the business of the test suite.

use vstd::prelude::*;

verus! {

use crate::fixed::{Q32, PI_Q32, HALF_PI_Q32, div_pow2, shr_i128};
use vstd::arithmetic::power2::{pow2, lemma_pow2_unfold, lemma_pow2_strictly_increases, lemma_pow2_pos, lemma2_to64};

/// Number of CORDIC iterations; enough for a few units in the last place of
/// a `Q32` angle.
pub const CORDIC_STEPS: u32 = 30;

/// Reciprocal of the CORDIC rotation gain for [`CORDIC_STEPS`] iterations,
/// at 60 fractional bits.
pub const CORDIC_GAIN_INV_Q60: i128 = 700114967507363328;

/// `atan(2^-i)` at `Q32`, the CORDIC angle table.
pub open spec fn atan_entry(i: nat) -> int {
    if i == 0 {
        3373259426
    } else if i == 1 {
        1991351318
    } else if i == 2 {
        1052175346
    } else if i == 3 {
        534100635
    } else if i == 4 {
        268086748
    } else if i == 5 {
        134174063
    } else if i == 6 {
        67103403
    } else if i == 7 {
        33553749
    } else if i == 8 {
        16777131
    } else if i == 9 {
        8388597
    } else if i == 10 {
        4194303
    } else if i == 11 {
        2097152
    } else if i == 12 {
        1048576
    } else if i == 13 {
        524288
    } else if i == 14 {
        262144
    } else if i == 15 {
        131072
    } else if i == 16 {
        65536
    } else if i == 17 {
        32768
    } else if i == 18 {
        16384
    } else if i == 19 {
        8192
    } else if i == 20 {
        4096
    } else if i == 21 {
        2048
    } else if i == 22 {
        1024
    } else if i == 23 {
        512
    } else if i == 24 {
        256
    } else if i == 25 {
        128
    } else if i == 26 {
        64
    } else if i == 27 {
        32
    } else if i == 28 {
        16
    } else if i == 29 {
        8
    } else {
        0
    }
}

/// Exact table lookup for [`atan_entry`].
pub fn atan_entry_at(i: u32) -> (a: i64)
    requires
        i < CORDIC_STEPS,
    ensures
        a as int == atan_entry(i as nat),
        0 < a <= 3373259426,
{
    match i {
        0 => 3373259426,
        1 => 1991351318,
        2 => 1052175346,
        3 => 534100635,
        4 => 268086748,
        5 => 134174063,
        6 => 67103403,
        7 => 33553749,
        8 => 16777131,
        9 => 8388597,
        10 => 4194303,
        11 => 2097152,
        12 => 1048576,
        13 => 524288,
        14 => 262144,
        15 => 131072,
        16 => 65536,
        17 => 32768,
        18 => 16384,
        19 => 8192,
        20 => 4096,
        21 => 2048,
        22 => 1024,
        23 => 512,
        24 => 256,
        25 => 128,
        26 => 64,
        27 => 32,
        28 => 16,
        29 => 8,
        _ => 0,
    }
}

/// Integer square root, defined by peeling one candidate at a time.
pub open spec fn spec_isqrt(n: int) -> int
    decreases n,
{
    if n < 1 {
        0
    } else {
        let r = spec_isqrt(n - 1);
        if (r + 1) * (r + 1) <= n {
            r + 1
        } else {
            r
        }
    }
}

/// The defining property of [`spec_isqrt`].
pub proof fn lemma_isqrt_bounds(n: int)
    requires
        n >= 0,
    ensures
        spec_isqrt(n) >= 0,
        spec_isqrt(n) * spec_isqrt(n) <= n,
        (spec_isqrt(n) + 1) * (spec_isqrt(n) + 1) > n,
    decreases n,
{
    if n >= 1 {
        lemma_isqrt_bounds(n - 1);
        let r = spec_isqrt(n - 1);
        assert((r + 2) * (r + 2) > (r + 1) * (r + 1)) by (nonlinear_arith)
            requires r >= 0,
        {}
    }
}

/// A value sandwiched between consecutive squares is the integer square root.
pub proof fn lemma_isqrt_unique(n: int, r: int)
    requires
        n >= 0,
        r >= 0,
        r * r <= n,
        (r + 1) * (r + 1) > n,
    ensures
        r == spec_isqrt(n),
{
    lemma_isqrt_bounds(n);
    let s = spec_isqrt(n);
    if r < s {
        assert((r + 1) * (r + 1) <= s * s) by (nonlinear_arith)
            requires 0 <= r, r < s,
        {}
    }
    if s < r {
        assert((s + 1) * (s + 1) <= r * r) by (nonlinear_arith)
            requires 0 <= s, s < r,
        {}
    }
}

/// Integer square root by binary search.
pub fn isqrt_u128(n: u128) -> (r: u64)
    ensures
        r as int == spec_isqrt(n as int),
        (r as int) * (r as int) <= n as int,
        (r as int + 1) * (r as int + 1) > n as int,
{
    let mut lo: u64 = 0;
    let mut hi: u64 = if n >= 0xFFFFFFFFFFFFFFFF { 0xFFFFFFFFFFFFFFFF } else { n as u64 };
    proof {
        assert((hi as int + 1) * (hi as int + 1) > n as int) by (nonlinear_arith)
            requires hi as int == n as int && n < 0xFFFFFFFFFFFFFFFF || hi == 0xFFFFFFFFFFFFFFFFu64 && n < 0x100000000000000000000000000000000;
        {}
    }
    while lo < hi
        invariant
            lo <= hi,
            (lo as int) * (lo as int) <= n as int,
            (hi as int + 1) * (hi as int + 1) > n as int,
        decreases hi - lo,
    {
        let mid = lo + (hi - lo) / 2 + 1;
        proof {
            assert((mid as int) * (mid as int) < 0x100000000000000000000000000000000) by (nonlinear_arith)
                requires 0 <= mid as int <= 0xFFFFFFFFFFFFFFFF,
            {}
        }
        if (mid as u128) * (mid as u128) <= n {
            lo = mid;
        } else {
            hi = mid - 1;
        }
    }
    proof {
        lemma_isqrt_unique(n as int, lo as int);
    }
    lo
}

/// One pass of CORDIC vectoring: drives `y` toward zero, accumulating in `z`
/// the angle of the original vector.
pub open spec fn vector_iter(x: int, y: int, z: int, i: nat) -> int
    decreases CORDIC_STEPS - i,
{
    if i >= CORDIC_STEPS {
        z
    } else if y > 0 {
        vector_iter(x + div_pow2(y, i), y - div_pow2(x, i), z + atan_entry(i), i + 1)
    } else {
        vector_iter(x - div_pow2(y, i), y + div_pow2(x, i), z - atan_entry(i), i + 1)
    }
}

/// Clamps a finished angle into the first quadrant.
pub open spec fn clamp_q1(z: int) -> int {
    if z < 0 {
        0
    } else if z > HALF_PI_Q32 {
        HALF_PI_Q32 as int
    } else {
        z
    }
}

/// First-quadrant arctangent at `Q32`: the angle of the vector `(x, y)`.
pub open spec fn spec_atan2_q1(y: int, x: int) -> int {
    if x == 0 {
        HALF_PI_Q32 as int
    } else if y == 0 {
        0
    } else {
        clamp_q1(vector_iter(x * 0x100000, y * 0x100000, 0, 0))
    }
}

/// First-quadrant arctangent of `y / x` at `Q32`, by CORDIC vectoring.
pub fn atan2_q1(y: i64, x: i64) -> (r: i64)
    requires
        0 <= y <= 0x10000000000,
        0 <= x <= 0x10000000000,
        x > 0 || y > 0,
    ensures
        r as int == spec_atan2_q1(y as int, x as int),
        0 <= r <= HALF_PI_Q32,
{
    if x == 0 {
        return HALF_PI_Q32;
    }
    if y == 0 {
        return 0;
    }
    let mut xx: i128 = (x as i128) * 0x100000;
    let mut yy: i128 = (y as i128) * 0x100000;
    let mut z: i64 = 0;
    let mut i: u32 = 0;
    let ghost x0 = xx as int;
    let ghost y0 = yy as int;
    proof {
        lemma2_to64();
    }
    while i < CORDIC_STEPS
        invariant
            i <= CORDIC_STEPS,
            -0x4000000000000000 * pow2(i as nat) <= xx <= 0x4000000000000000 * pow2(i as nat),
            -0x4000000000000000 * pow2(i as nat) <= yy <= 0x4000000000000000 * pow2(i as nat),
            -(i as int) * 3373259426 <= z <= (i as int) * 3373259426,
            vector_iter(xx as int, yy as int, z as int, i as nat) == vector_iter(x0, y0, 0, 0),
        decreases CORDIC_STEPS - i,
    {
        proof {
            lemma_pow2_unfold((i + 1) as nat);
            lemma_pow2_pos(i as nat);
            if i < 64 {
                lemma_pow2_strictly_increases(i as nat, 64);
            }
            lemma2_to64();
        }
        let dx = shr_i128(yy, i);
        let dy = shr_i128(xx, i);
        let a = atan_entry_at(i);
        if yy > 0 {
            xx = xx + dx;
            yy = yy - dy;
            z = z + a;
        } else {
            xx = xx - dx;
            yy = yy + dy;
            z = z - a;
        }
        i = i + 1;
    }
    if z < 0 {
        0
    } else if z > HALF_PI_Q32 {
        HALF_PI_Q32
    } else {
        z
    }
}

/// One pass of CORDIC rotation: drives the residual angle `z` toward zero,
/// rotating `(x, y)` by the consumed amount.
pub open spec fn rotate_iter(x: int, y: int, z: int, i: nat) -> (int, int)
    decreases CORDIC_STEPS - i,
{
    if i >= CORDIC_STEPS {
        (x, y)
    } else if z >= 0 {
        rotate_iter(x - div_pow2(y, i), y + div_pow2(x, i), z - atan_entry(i), i + 1)
    } else {
        rotate_iter(x + div_pow2(y, i), y - div_pow2(x, i), z + atan_entry(i), i + 1)
    }
}

/// Clamps a finished cosine or sine into `[-1, 1]` at `Q32`.
pub open spec fn clamp_unit(v: int) -> int {
    if v < -Q32 {
        -Q32 as int
    } else if v > Q32 {
        Q32 as int
    } else {
        v
    }
}

/// Cosine and sine of a `Q32` angle in `[-pi/2, pi/2]`, before sign folding.
pub open spec fn spec_cos_sin_core(th: int) -> (int, int) {
    if th == 0 {
        (Q32 as int, 0)
    } else {
        let p = rotate_iter(CORDIC_GAIN_INV_Q60 as int, 0, th, 0);
        (clamp_unit(div_pow2(p.0, 28)), clamp_unit(div_pow2(p.1, 28)))
    }
}

/// Cosine and sine of a `Q32` angle in roughly `[-pi, pi]`: angles beyond a
/// quarter turn are folded across the origin.
pub open spec fn spec_cos_sin(theta: int) -> (int, int) {
    if theta > HALF_PI_Q32 {
        let p = spec_cos_sin_core(theta - PI_Q32);
        (-p.0, -p.1)
    } else if theta < -HALF_PI_Q32 {
        let p = spec_cos_sin_core(theta + PI_Q32);
        (-p.0, -p.1)
    } else {
        spec_cos_sin_core(theta)
    }
}

/// Cosine and sine of a `Q32` angle, by CORDIC rotation.
pub fn cos_sin(theta: i64) -> (r: (i64, i64))
    requires
        -PI_Q32 - 0x10000 <= theta <= PI_Q32 + 0x10000,
    ensures
        (r.0 as int, r.1 as int) == spec_cos_sin(theta as int),
        -Q32 <= r.0 <= Q32,
        -Q32 <= r.1 <= Q32,
        theta == 0 ==> r.0 == Q32 && r.1 == 0,
{
    let (th, neg) = if theta > HALF_PI_Q32 {
        (theta - PI_Q32, true)
    } else if theta < -HALF_PI_Q32 {
        (theta + PI_Q32, true)
    } else {
        (theta, false)
    };
    let (c, s) = cos_sin_core(th);
    if neg {
        (-c, -s)
    } else {
        (c, s)
    }
}

/// CORDIC rotation for an angle within a quarter turn of zero.
fn cos_sin_core(th: i64) -> (r: (i64, i64))
    requires
        -HALF_PI_Q32 - 0x10000 <= th <= HALF_PI_Q32 + 0x10000,
    ensures
        (r.0 as int, r.1 as int) == spec_cos_sin_core(th as int),
        -Q32 <= r.0 <= Q32,
        -Q32 <= r.1 <= Q32,
{
    if th == 0 {
        return (Q32, 0);
    }
    let mut xx: i128 = CORDIC_GAIN_INV_Q60;
    let mut yy: i128 = 0;
    let mut z: i64 = th;
    let mut i: u32 = 0;
    let ghost th0 = th as int;
    proof {
        lemma2_to64();
    }
    while i < CORDIC_STEPS
        invariant
            i <= CORDIC_STEPS,
            -0x1000000000000000 * pow2(i as nat) <= xx <= 0x1000000000000000 * pow2(i as nat),
            -0x1000000000000000 * pow2(i as nat) <= yy <= 0x1000000000000000 * pow2(i as nat),
            -HALF_PI_Q32 - 0x10000 - (i as int) * 3373259426 <= z <= HALF_PI_Q32 + 0x10000 + (i as int) * 3373259426,
            rotate_iter(xx as int, yy as int, z as int, i as nat) == rotate_iter(CORDIC_GAIN_INV_Q60 as int, 0, th0, 0),
        decreases CORDIC_STEPS - i,
    {
        proof {
            lemma_pow2_unfold((i + 1) as nat);
            lemma_pow2_pos(i as nat);
            if i < 64 {
                lemma_pow2_strictly_increases(i as nat, 64);
            }
            lemma2_to64();
        }
        let dx = shr_i128(yy, i);
        let dy = shr_i128(xx, i);
        let a = atan_entry_at(i);
        if z >= 0 {
            xx = xx - dx;
            yy = yy + dy;
            z = z - a;
        } else {
            xx = xx + dx;
            yy = yy - dy;
            z = z + a;
        }
        i = i + 1;
    }
    let c128 = shr_i128(xx, 28);
    let s128 = shr_i128(yy, 28);
    let c: i64 = if c128 < -(Q32 as i128) {
        -Q32
    } else if c128 > Q32 as i128 {
        Q32
    } else {
        c128 as i64
    };
    let s: i64 = if s128 < -(Q32 as i128) {
        -Q32
    } else if s128 > Q32 as i128 {
        Q32
    } else {
        s128 as i64
    };
    (c, s)
}

} // verus!
