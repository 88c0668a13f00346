//! Fixed-point scalar conventions and the few arithmetic helpers that the
//! geometry modules share.
//!
//! Two scales are used throughout the crate:
//! - `Q16` (16 fractional bits): world coordinates, sizes, the projector's
//!   scale factor, transparency, and the cosine/sine pair handed to the
//!   rasterizer.
//! - `Q32` (32 fractional bits): rotation-matrix entries, quaternion
//!   components and angles in radians, where the extra precision keeps the
//!   trigonometric error well below a pixel.

use vstd::prelude::*;

verus! {

use vstd::arithmetic::power2::{pow2, lemma_pow2_unfold, lemma_pow2_strictly_increases, lemma2_to64};

/// One whole unit at 16 fractional bits.
pub const Q16: i64 = 65536;

/// One whole unit at 32 fractional bits.
pub const Q32: i64 = 4294967296;

/// The closest `Q32` value to the mathematical constant pi.
pub const PI_Q32: i64 = 13493037705;

/// The closest `Q32` value to pi / 2.
pub const HALF_PI_Q32: i64 = 6746518852;

/// Floor division of `v` by `2^k`, the rounding used when a value is brought
/// down from a finer fixed-point scale to a coarser one.
pub open spec fn div_pow2(v: int, k: nat) -> int {
    let p = pow2(k) as int;
    if v >= 0 {
        v / p
    } else {
        -(((-v) + p - 1) / p)
    }
}

/// Integer division of `num` by `den` rounded toward zero.
pub open spec fn trunc_div(num: int, den: int) -> int {
    if num >= 0 {
        num / den
    } else {
        -((-num) / den)
    }
}

/// A quotient is no larger than any cap whose product with the divisor
/// bounds the dividend.
pub proof fn lemma_trunc_div_bound(num: int, den: int, cap: int)
    requires
        den >= 1,
        cap >= 0,
        -(cap * den) <= num <= cap * den,
    ensures
        -cap <= trunc_div(num, den) <= cap,
{
    if num >= 0 {
        vstd::arithmetic::div_mod::lemma_div_pos_is_pos(num, den);
        vstd::arithmetic::div_mod::lemma_div_is_ordered(num, cap * den, den);
        vstd::arithmetic::div_mod::lemma_div_by_multiple(cap, den);
    } else {
        vstd::arithmetic::div_mod::lemma_div_pos_is_pos(-num, den);
        vstd::arithmetic::div_mod::lemma_div_is_ordered(-num, cap * den, den);
        vstd::arithmetic::div_mod::lemma_div_by_multiple(cap, den);
    }
}

/// A floor shift is no larger than any cap whose product with the power of
/// two bounds the operand.
pub proof fn lemma_div_pow2_bound(v: int, k: nat, cap: int)
    requires
        cap >= 0,
        -(cap * pow2(k)) <= v <= cap * pow2(k),
    ensures
        -cap <= div_pow2(v, k) <= cap,
{
    let p = pow2(k) as int;
    vstd::arithmetic::power2::lemma_pow2_pos(k);
    if v >= 0 {
        vstd::arithmetic::div_mod::lemma_div_pos_is_pos(v, p);
        vstd::arithmetic::div_mod::lemma_div_is_ordered(v, cap * p, p);
        vstd::arithmetic::div_mod::lemma_div_by_multiple(cap, p);
    } else {
        assert(cap * p == p * cap) by (nonlinear_arith) {}
        vstd::arithmetic::div_mod::lemma_div_pos_is_pos(-v + p - 1, p);
        vstd::arithmetic::div_mod::lemma_div_is_ordered(-v + p - 1, p * cap + p - 1, p);
        vstd::arithmetic::div_mod::lemma_div_multiples_vanish_fancy(cap, p - 1, p);
    }
}

/// Bounds the product of two bounded factors.
pub proof fn lemma_mul_bound(a: int, b: int, m: int)
    requires
        m >= 0,
        -m <= a <= m,
        -m <= b <= m,
    ensures
        -(m * m) <= a * b <= m * m,
{
    assert(-(m * m) <= a * b <= m * m) by (nonlinear_arith)
        requires m >= 0, -m <= a <= m, -m <= b <= m,
    {}
}

/// Computes `2^k` exactly.
pub fn pow2_u128(k: u32) -> (p: u128)
    requires
        k <= 64,
    ensures
        p == pow2(k as nat),
        p >= 1,
{
    proof {
        lemma2_to64();
    }
    let mut p: u128 = 1;
    let mut i: u32 = 0;
    while i < k
        invariant
            i <= k <= 64,
            p == pow2(i as nat),
        decreases k - i,
    {
        proof {
            lemma_pow2_unfold((i + 1) as nat);
            if i + 1 < 64 {
                lemma_pow2_strictly_increases((i + 1) as nat, 64);
            }
            lemma2_to64();
        }
        p = p * 2;
        i = i + 1;
    }
    proof {
        vstd::arithmetic::power2::lemma_pow2_pos(k as nat);
    }
    p
}

/// Shifts `v` down by `k` bits with floor rounding, the exact realization of
/// [`div_pow2`] on machine integers.
pub fn shr_i128(v: i128, k: u32) -> (r: i128)
    requires
        k <= 64,
        -0x1000000000000000000000000 < v < 0x1000000000000000000000000,
    ensures
        r == div_pow2(v as int, k as nat),
        v >= 0 ==> 0 <= r <= v,
        v < 0 ==> v <= r <= 0,
{
    let p = pow2_u128(k);
    proof {
        lemma2_to64();
        if (k as nat) < 64 {
            lemma_pow2_strictly_increases(k as nat, 64);
        }
    }
    if v >= 0 {
        proof {
            vstd::arithmetic::div_mod::lemma_div_nonincreasing(v as int, p as int);
            vstd::arithmetic::div_mod::lemma_div_pos_is_pos(v as int, p as int);
        }
        ((v as u128) / p) as i128
    } else {
        let m = (-v) as u128;
        proof {
            let mi = m as int;
            let pi = p as int;
            vstd::arithmetic::mul::lemma_mul_inequality(1, pi, mi);
            vstd::arithmetic::div_mod::lemma_div_multiples_vanish_fancy(mi, pi - 1, pi);
            vstd::arithmetic::div_mod::lemma_div_is_ordered(mi + pi - 1, pi * mi + pi - 1, pi);
            vstd::arithmetic::div_mod::lemma_div_pos_is_pos(mi + pi - 1, pi);
        }
        -(((m + (p - 1)) / p) as i128)
    }
}

/// Divides `num` by `den` rounding toward zero, the exact realization of
/// [`trunc_div`] on machine integers.
pub fn div_i128(num: i128, den: i128) -> (r: i128)
    requires
        den > 0,
        -0x1000000000000000000000000 < num < 0x1000000000000000000000000,
    ensures
        r == trunc_div(num as int, den as int),
        num >= 0 ==> 0 <= r <= num,
        num < 0 ==> num <= r <= 0,
{
    if num >= 0 {
        proof {
            vstd::arithmetic::div_mod::lemma_div_nonincreasing(num as int, den as int);
            vstd::arithmetic::div_mod::lemma_div_pos_is_pos(num as int, den as int);
        }
        ((num as u128) / (den as u128)) as i128
    } else {
        let m = (-num) as u128;
        proof {
            vstd::arithmetic::div_mod::lemma_div_nonincreasing(m as int, den as int);
            vstd::arithmetic::div_mod::lemma_div_pos_is_pos(m as int, den as int);
        }
        -((m / (den as u128)) as i128)
    }
}

} // verus!
