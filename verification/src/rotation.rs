//! Extraction of a scaled axis-angle vector from a 3x3 rotation matrix.
//!
//! The matrix is first converted to a unit quaternion through one of four
//! trace-derived branches (choosing the numerically largest quantity avoids
//! dividing by a near-zero scale), and the quaternion is then converted to a
//! vector whose direction is the rotation axis and whose magnitude is the
//! rotation angle in radians. All values are `Q32` fixed-point.

use vstd::prelude::*;

verus! {

use crate::fixed::{Q32, PI_Q32, HALF_PI_Q32, trunc_div, div_i128, lemma_trunc_div_bound};
use crate::trig::{spec_isqrt, isqrt_u128, spec_atan2_q1, atan2_q1};

/// A 3x3 rotation matrix with `Q32` entries, row-major.
#[derive(Clone, Copy, Debug)]
pub struct Matrix3 {
    pub r00: i64,
    pub r01: i64,
    pub r02: i64,
    pub r10: i64,
    pub r11: i64,
    pub r12: i64,
    pub r20: i64,
    pub r21: i64,
    pub r22: i64,
}

/// Every entry of a rotation matrix lies in `[-1, 1]`.
pub open spec fn wf_matrix(m: Matrix3) -> bool {
    &&& -Q32 <= m.r00 <= Q32
    &&& -Q32 <= m.r01 <= Q32
    &&& -Q32 <= m.r02 <= Q32
    &&& -Q32 <= m.r10 <= Q32
    &&& -Q32 <= m.r11 <= Q32
    &&& -Q32 <= m.r12 <= Q32
    &&& -Q32 <= m.r20 <= Q32
    &&& -Q32 <= m.r21 <= Q32
    &&& -Q32 <= m.r22 <= Q32
}

/// The `Q32` identity matrix: no rotation at all.
pub open spec fn spec_identity() -> Matrix3 {
    Matrix3 { r00: Q32, r01: 0, r02: 0, r10: 0, r11: Q32, r12: 0, r20: 0, r21: 0, r22: Q32 }
}

/// Axis-angle rotation: direction is the axis, magnitude the angle in
/// radians, components at `Q32`.
#[derive(Clone, Copy, Debug)]
pub struct AxisAngle {
    pub x: i64,
    pub y: i64,
    pub z: i64,
}

impl AxisAngle {
    /// Bundles three components into an [`AxisAngle`].
    pub fn new(x: i64, y: i64, z: i64) -> (r: AxisAngle)
        ensures
            r.x == x,
            r.y == y,
            r.z == z,
    {
        AxisAngle { x, y, z }
    }
}

/// Which of the four trace-derived quantities drives quaternion extraction.
#[derive(Clone, Copy, Debug, PartialEq, Eq, Structural)]
pub enum QuatBranch {
    /// The full trace `1 + r00 + r11 + r22` is the largest.
    FromTrace,
    /// `1 + r00 - r11 - r22` is the largest.
    FromX,
    /// `1 - r00 + r11 - r22` is the largest.
    FromY,
    /// `1 - r00 - r11 + r22` is the largest.
    FromZ,
}

/// Branch choice as a function of the four trace quantities: exactly one of
/// four mutually exclusive comparison chains holds.
pub open spec fn spec_branch(tr: int, ti: int, tj: int, tk: int) -> QuatBranch {
    if ti < tr && tj < tr && tk < tr {
        QuatBranch::FromTrace
    } else if tj < ti && tk < ti {
        QuatBranch::FromX
    } else if tk < tj {
        QuatBranch::FromY
    } else {
        QuatBranch::FromZ
    }
}

/// Picks the extraction branch for the given trace quantities.
pub fn select_branch(tr: i64, ti: i64, tj: i64, tk: i64) -> (b: QuatBranch)
    ensures
        b == spec_branch(tr as int, ti as int, tj as int, tk as int),
        (b == QuatBranch::FromTrace) <==> (ti < tr && tj < tr && tk < tr),
        (b == QuatBranch::FromX) <==> (!(ti < tr && tj < tr && tk < tr) && tj < ti && tk < ti),
{
    if ti < tr && tj < tr && tk < tr {
        QuatBranch::FromTrace
    } else if tj < ti && tk < ti {
        QuatBranch::FromX
    } else if tk < tj {
        QuatBranch::FromY
    } else {
        QuatBranch::FromZ
    }
}

/// Square root of a `Q32` quantity, at `Q32`.
pub open spec fn spec_root_q32(t: int) -> int {
    spec_isqrt(t * 0x100000000)
}

/// `Q32` quotient of a matrix-entry combination by the branch scale.
pub open spec fn spec_scale_div(d: int, s: int) -> int {
    trunc_div(d * 0x100000000, s)
}

/// The unit quaternion `(w, x, y, z)` derived from a rotation matrix.
pub open spec fn spec_quat(m: Matrix3) -> (int, int, int, int) {
    let tr = Q32 + m.r00 + m.r11 + m.r22;
    let ti = Q32 + m.r00 - m.r11 - m.r22;
    let tj = Q32 - m.r00 + m.r11 - m.r22;
    let tk = Q32 - m.r00 - m.r11 + m.r22;
    match spec_branch(tr as int, ti as int, tj as int, tk as int) {
        QuatBranch::FromTrace => {
            let root = spec_root_q32(tr as int);
            let s = 2 * root;
            (root / 2, spec_scale_div(m.r21 - m.r12, s), spec_scale_div(m.r02 - m.r20, s), spec_scale_div(m.r10 - m.r01, s))
        },
        QuatBranch::FromX => {
            let root = spec_root_q32(ti as int);
            let s = 2 * root;
            (spec_scale_div(m.r21 - m.r12, s), root / 2, spec_scale_div(m.r10 + m.r01, s), spec_scale_div(m.r02 + m.r20, s))
        },
        QuatBranch::FromY => {
            let root = spec_root_q32(tj as int);
            let s = 2 * root;
            (spec_scale_div(m.r02 - m.r20, s), spec_scale_div(m.r10 + m.r01, s), root / 2, spec_scale_div(m.r21 + m.r12, s))
        },
        QuatBranch::FromZ => {
            let root = spec_root_q32(tk as int);
            let s = 2 * root;
            (spec_scale_div(m.r10 - m.r01, s), spec_scale_div(m.r02 + m.r20, s), spec_scale_div(m.r21 + m.r12, s), root / 2)
        },
    }
}

/// Axis-angle vector from a quaternion. A zero vector part means no
/// rotation, and is returned as the zero vector rather than divided by.
pub open spec fn spec_axis_angle(w: int, x: int, y: int, z: int) -> (int, int, int) {
    let msq = x * x + y * y + z * z;
    if msq == 0 {
        (0, 0, 0)
    } else {
        let mm = spec_isqrt(msq);
        if w < 0 {
            let at = spec_atan2_q1(mm, -w);
            (trunc_div(-2 * at * x, mm), trunc_div(-2 * at * y, mm), trunc_div(-2 * at * z, mm))
        } else {
            let at = spec_atan2_q1(mm, w);
            (trunc_div(2 * at * x, mm), trunc_div(2 * at * y, mm), trunc_div(2 * at * z, mm))
        }
    }
}

/// The whole extraction pipeline as one function of the matrix.
pub open spec fn spec_matrix_axis_angle(m: Matrix3) -> (int, int, int) {
    let q = spec_quat(m);
    spec_axis_angle(q.0, q.1, q.2, q.3)
}

/// Quaternion extraction: selects the branch with the largest trace-derived
/// quantity, which is at least one whole unit, so the scale divided by is
/// bounded away from zero.
pub fn quat_from_matrix(m: &Matrix3) -> (q: (i64, i64, i64, i64))
    requires
        wf_matrix(*m),
    ensures
        (q.0 as int, q.1 as int, q.2 as int, q.3 as int) == spec_quat(*m),
        -2 * Q32 <= q.0 <= 2 * Q32,
        -2 * Q32 <= q.1 <= 2 * Q32,
        -2 * Q32 <= q.2 <= 2 * Q32,
        -2 * Q32 <= q.3 <= 2 * Q32,
{
    let tr = Q32 + m.r00 + m.r11 + m.r22;
    let ti = Q32 + m.r00 - m.r11 - m.r22;
    let tj = Q32 - m.r00 + m.r11 - m.r22;
    let tk = Q32 - m.r00 - m.r11 + m.r22;
    let b = select_branch(tr, ti, tj, tk);
    match b {
        QuatBranch::FromTrace => {
            let (root, s) = branch_scale(tr);
            let qx = entry_div(m.r21 - m.r12, s);
            let qy = entry_div(m.r02 - m.r20, s);
            let qz = entry_div(m.r10 - m.r01, s);
            ((root / 2) as i64, qx, qy, qz)
        },
        QuatBranch::FromX => {
            let (root, s) = branch_scale(ti);
            let qw = entry_div(m.r21 - m.r12, s);
            let qy = entry_div(m.r10 + m.r01, s);
            let qz = entry_div(m.r02 + m.r20, s);
            (qw, (root / 2) as i64, qy, qz)
        },
        QuatBranch::FromY => {
            let (root, s) = branch_scale(tj);
            let qw = entry_div(m.r02 - m.r20, s);
            let qx = entry_div(m.r10 + m.r01, s);
            let qz = entry_div(m.r21 + m.r12, s);
            (qw, qx, (root / 2) as i64, qz)
        },
        QuatBranch::FromZ => {
            let (root, s) = branch_scale(tk);
            let qw = entry_div(m.r10 - m.r01, s);
            let qx = entry_div(m.r02 + m.r20, s);
            let qy = entry_div(m.r21 + m.r12, s);
            (qw, qx, qy, (root / 2) as i64)
        },
    }
}

/// Root and doubled root of the selected trace quantity.
fn branch_scale(t: i64) -> (r: (u64, i64))
    requires
        Q32 <= t <= 4 * Q32,
    ensures
        r.0 as int == spec_root_q32(t as int),
        r.1 == 2 * r.0,
        2 * Q32 <= r.1 <= 5 * Q32,
{
    let root = isqrt_u128((t as u128) * 0x100000000);
    proof {
        assert(root as int + 1 > 0x100000000) by (nonlinear_arith)
            requires
                (root as int + 1) * (root as int + 1) > 0x10000000000000000,
                root as int >= 0,
        {}
        assert(root as int <= 0x200000000) by (nonlinear_arith)
            requires
                (root as int) * (root as int) <= 0x40000000000000000,
                root as int >= 0,
        {}
    }
    (root, 2 * (root as i64))
}

/// One quaternion component: a difference or sum of matrix entries divided
/// by the branch scale.
fn entry_div(d: i64, s: i64) -> (r: i64)
    requires
        -2 * Q32 <= d <= 2 * Q32,
        2 * Q32 <= s <= 5 * Q32,
    ensures
        r as int == spec_scale_div(d as int, s as int),
        -Q32 <= r <= Q32,
{
    let num = (d as i128) * 0x100000000;
    proof {
        assert(-((Q32 as int) * (s as int)) <= (d as int) * 0x100000000 <= (Q32 as int) * (s as int)) by (nonlinear_arith)
            requires
                -0x200000000 <= d as int <= 0x200000000,
                0x200000000 <= s as int,
                Q32 == 0x100000000,
        {}
        lemma_trunc_div_bound((d as int) * 0x100000000, s as int, Q32 as int);
    }
    div_i128(num, s as i128) as i64
}

/// Quaternion to axis-angle. The angle is twice the arctangent of the vector
/// magnitude against the scalar part; each component is scaled by it without
/// an intermediate near-zero division.
pub fn axis_angle_from_quat(w: i64, x: i64, y: i64, z: i64) -> (aa: AxisAngle)
    requires
        -2 * Q32 <= w <= 2 * Q32,
        -2 * Q32 <= x <= 2 * Q32,
        -2 * Q32 <= y <= 2 * Q32,
        -2 * Q32 <= z <= 2 * Q32,
    ensures
        (aa.x as int, aa.y as int, aa.z as int) == spec_axis_angle(w as int, x as int, y as int, z as int),
        -PI_Q32 <= aa.x <= PI_Q32,
        -PI_Q32 <= aa.y <= PI_Q32,
        -PI_Q32 <= aa.z <= PI_Q32,
{
    proof {
        assert(0 <= (x as int) * (x as int) <= 0x40000000000000000) by (nonlinear_arith)
            requires -0x200000000 <= x as int <= 0x200000000,
        {}
        assert(0 <= (y as int) * (y as int) <= 0x40000000000000000) by (nonlinear_arith)
            requires -0x200000000 <= y as int <= 0x200000000,
        {}
        assert(0 <= (z as int) * (z as int) <= 0x40000000000000000) by (nonlinear_arith)
            requires -0x200000000 <= z as int <= 0x200000000,
        {}
    }
    let msq: i128 = (x as i128) * (x as i128) + (y as i128) * (y as i128) + (z as i128) * (z as i128);
    if msq == 0 {
        return AxisAngle { x: 0, y: 0, z: 0 };
    }
    let mm = isqrt_u128(msq as u128);
    proof {
        let mi = mm as int;
        assert(mi >= 1) by (nonlinear_arith)
            requires (mi + 1) * (mi + 1) > msq as int, mi >= 0, msq as int >= 1,
        {}
        assert(mi <= 0x400000000) by (nonlinear_arith)
            requires mi * mi <= msq as int, msq as int <= 0xC0000000000000000, mi >= 0,
        {}
    }
    let wpos: i64 = if w < 0 { -w } else { w };
    let at = atan2_q1(mm as i64, wpos);
    let rx = angle_scale(at, x, mm as i64, w < 0);
    let ry = angle_scale(at, y, mm as i64, w < 0);
    let rz = angle_scale(at, z, mm as i64, w < 0);
    AxisAngle { x: rx, y: ry, z: rz }
}

/// One axis-angle component: `±2 * at * c / mm`, bounded by a full turn
/// because the component never exceeds the magnitude it is divided by.
fn angle_scale(at: i64, c: i64, mm: i64, neg: bool) -> (r: i64)
    requires
        0 <= at <= HALF_PI_Q32,
        -2 * Q32 <= c <= 2 * Q32,
        1 <= mm <= 0x400000000,
        (c as int) * (c as int) < (mm as int + 1) * (mm as int + 1),
    ensures
        neg ==> r as int == trunc_div(-2 * (at as int) * (c as int), mm as int),
        !neg ==> r as int == trunc_div(2 * (at as int) * (c as int), mm as int),
        -PI_Q32 <= r <= PI_Q32,
{
    proof {
        let ci = c as int;
        let mi = mm as int;
        let ai = at as int;
        assert(-mi <= ci <= mi) by (nonlinear_arith)
            requires ci * ci < (mi + 1) * (mi + 1), mi >= 0,
        {}
        assert(-((2 * ai) * mi) <= (2 * ai) * ci <= (2 * ai) * mi) by (nonlinear_arith)
            requires -mi <= ci <= mi, ai >= 0,
        {}
        assert(-0x100000000000000000 <= (2 * ai) * ci <= 0x100000000000000000) by (nonlinear_arith)
            requires -0x200000000 <= ci <= 0x200000000, 0 <= ai <= 0x200000000,
        {}
        lemma_trunc_div_bound((2 * ai) * ci, mi, 2 * ai);
        lemma_trunc_div_bound(-((2 * ai) * ci), mi, 2 * ai);
        assert((2 * ai) * ci == 2 * ai * ci) by (nonlinear_arith) {}
        assert(-((2 * ai) * ci) == -2 * ai * ci) by (nonlinear_arith) {}
    }
    let num: i128 = (2 * (at as i128)) * (c as i128);
    if neg {
        div_i128(-num, mm as i128) as i64
    } else {
        div_i128(num, mm as i128) as i64
    }
}

/// Converts a rotation matrix to its scaled axis-angle vector. The identity
/// matrix yields the zero vector; every component is at most half a turn in
/// magnitude.
pub fn matrix3_to_axis_angle(m: Matrix3) -> (aa: AxisAngle)
    requires
        wf_matrix(m),
    ensures
        (aa.x as int, aa.y as int, aa.z as int) == spec_matrix_axis_angle(m),
        -PI_Q32 <= aa.x <= PI_Q32,
        -PI_Q32 <= aa.y <= PI_Q32,
        -PI_Q32 <= aa.z <= PI_Q32,
{
    let q = quat_from_matrix(&m);
    axis_angle_from_quat(q.0, q.1, q.2, q.3)
}

/// Builds the rotation matrix for a yaw (vertical-axis) turn whose cosine
/// and sine are given at `Q32`.
pub fn yaw_matrix(c: i64, s: i64) -> (m: Matrix3)
    requires
        -Q32 <= c <= Q32,
        -Q32 <= s <= Q32,
    ensures
        m.r00 == c && m.r01 == 0 && m.r02 == s,
        m.r10 == 0 && m.r11 == Q32 && m.r12 == 0,
        m.r20 as int == -(s as int) && m.r21 == 0 && m.r22 == c,
        wf_matrix(m),
{
    Matrix3 { r00: c, r01: 0, r02: s, r10: 0, r11: Q32, r12: 0, r20: -s, r21: 0, r22: c }
}

/// Feeding the identity matrix through the extraction pipeline yields the
/// exactly zero axis-angle vector: no rotation, zero magnitude.
pub proof fn lemma_identity_extracts_zero()
    ensures
        spec_matrix_axis_angle(spec_identity()) == (0int, 0int, 0int),
{
    let m = spec_identity();
    let tr: int = Q32 + m.r00 + m.r11 + m.r22;
    assert(tr == 4 * Q32);
    assert(spec_branch(4 * Q32, 0, 0, 0) == QuatBranch::FromTrace);
    crate::trig::lemma_isqrt_unique(4 * (Q32 as int) * 0x100000000, 0x200000000);
    let root = spec_root_q32(4 * Q32);
    assert(root == 0x200000000);
    lemma_trunc_div_bound(0, 2 * root, 0);
    let q = spec_quat(m);
    assert(q.1 == 0 && q.2 == 0 && q.3 == 0);
}

} // verus!
