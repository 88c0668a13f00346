//! Oriented-quad rasterization into an RGBA pixel canvas.
//!
//! A footprint is an axis-aligned box of half-extents `(hw, hd)` rotated by
//! a yaw angle and translated to a projected center. Its four corners are
//! computed exactly (up to one floor rounding from the cosine/sine scale),
//! and a pixel's coverage is how many of its four subsamples fall strictly
//! inside the quad under the non-zero winding rule, which for this convex
//! quad is "strictly left of every edge". Colors composite by straight
//! alpha blending, one channel at a time.

use vstd::prelude::*;

verus! {

use crate::fixed::div_pow2;

/// Largest corner coordinate magnitude a quad may carry, `Q32`.
pub const MAX_CORNER_Q32: i64 = 0x400000000000000;

/// Largest center or half-extent magnitude accepted by the rasterizer, `Q32`.
pub const MAX_FOOT_Q32: i64 = 0x80000000000000;

/// Largest canvas width or height, pixels.
pub const MAX_DIM: usize = 0x4000;

/// An RGBA color, one byte per channel.
#[derive(Clone, Copy, Debug, PartialEq, Eq, Structural)]
pub struct Rgba {
    pub r: u8,
    pub g: u8,
    pub b: u8,
    pub a: u8,
}

/// An oriented quadrilateral in `Q32` pixel space, corners in winding order.
#[derive(Clone, Copy, Debug)]
pub struct Quad {
    pub x1: i64,
    pub z1: i64,
    pub x2: i64,
    pub z2: i64,
    pub x3: i64,
    pub z3: i64,
    pub x4: i64,
    pub z4: i64,
}

/// All corners within the coordinate cap.
pub open spec fn wf_quad(q: Quad) -> bool {
    &&& -MAX_CORNER_Q32 <= q.x1 <= MAX_CORNER_Q32
    &&& -MAX_CORNER_Q32 <= q.z1 <= MAX_CORNER_Q32
    &&& -MAX_CORNER_Q32 <= q.x2 <= MAX_CORNER_Q32
    &&& -MAX_CORNER_Q32 <= q.z2 <= MAX_CORNER_Q32
    &&& -MAX_CORNER_Q32 <= q.x3 <= MAX_CORNER_Q32
    &&& -MAX_CORNER_Q32 <= q.z3 <= MAX_CORNER_Q32
    &&& -MAX_CORNER_Q32 <= q.x4 <= MAX_CORNER_Q32
    &&& -MAX_CORNER_Q32 <= q.z4 <= MAX_CORNER_Q32
}

/// Twice the signed area of the triangle `(a, b, p)`: positive when `p`
/// lies strictly to the left of the directed edge `a -> b`.
pub open spec fn spec_cross(ax: int, az: int, bx: int, bz: int, px: int, pz: int) -> int {
    (bx - ax) * (pz - az) - (bz - az) * (px - ax)
}

/// Strict interior test under the winding rule: for a convex quad traversed
/// consistently, a point is inside exactly when it is strictly left of all
/// four edges. A degenerate (zero-area) quad has an empty interior.
pub open spec fn spec_inside(q: Quad, px: int, pz: int) -> bool {
    &&& spec_cross(q.x1 as int, q.z1 as int, q.x2 as int, q.z2 as int, px, pz) > 0
    &&& spec_cross(q.x2 as int, q.z2 as int, q.x3 as int, q.z3 as int, px, pz) > 0
    &&& spec_cross(q.x3 as int, q.z3 as int, q.x4 as int, q.z4 as int, px, pz) > 0
    &&& spec_cross(q.x4 as int, q.z4 as int, q.x1 as int, q.z1 as int, px, pz) > 0
}

/// The four quad corners: the sign combinations `(+hw, +hd)`, `(-hw, +hd)`,
/// `(-hw, -hd)`, `(+hw, -hd)` rotated by the yaw whose cosine and sine are
/// `(c, s)` at `Q16`, then translated to the center.
pub open spec fn spec_corners(cx: int, cz: int, hw: int, hd: int, c: int, s: int) -> Quad {
    Quad {
        x1: (div_pow2(hw * c - hd * s, 16) + cx) as i64,
        z1: (div_pow2(hw * s + hd * c, 16) + cz) as i64,
        x2: (div_pow2(-(hw * c) - hd * s, 16) + cx) as i64,
        z2: (div_pow2(-(hw * s) + hd * c, 16) + cz) as i64,
        x3: (div_pow2(-(hw * c) + hd * s, 16) + cx) as i64,
        z3: (div_pow2(-(hw * s) - hd * c, 16) + cz) as i64,
        x4: (div_pow2(hw * c + hd * s, 16) + cx) as i64,
        z4: (div_pow2(hw * s - hd * c, 16) + cz) as i64,
    }
}

/// Computes the rotated, translated corners exactly as [`spec_corners`].
pub fn make_quad(cx: i64, cz: i64, hw: i64, hd: i64, c: i64, s: i64) -> (q: Quad)
    requires
        -MAX_FOOT_Q32 <= cx <= MAX_FOOT_Q32,
        -MAX_FOOT_Q32 <= cz <= MAX_FOOT_Q32,
        0 <= hw <= MAX_FOOT_Q32,
        0 <= hd <= MAX_FOOT_Q32,
        -0x20000 <= c <= 0x20000,
        -0x20000 <= s <= 0x20000,
    ensures
        q == spec_corners(cx as int, cz as int, hw as int, hd as int, c as int, s as int),
        wf_quad(q),
{
    proof {
        mul_foot_bound(hw as int, c as int);
        mul_foot_bound(hw as int, s as int);
        mul_foot_bound(hd as int, c as int);
        mul_foot_bound(hd as int, s as int);
    }
    let hwc: i128 = (hw as i128) * (c as i128);
    let hws: i128 = (hw as i128) * (s as i128);
    let hdc: i128 = (hd as i128) * (c as i128);
    let hds: i128 = (hd as i128) * (s as i128);
    proof {
        vstd::arithmetic::power2::lemma2_to64();
        crate::fixed::lemma_div_pow2_bound(hwc - hds, 16, 0x200000000000000);
        crate::fixed::lemma_div_pow2_bound(hws + hdc, 16, 0x200000000000000);
        crate::fixed::lemma_div_pow2_bound(-(hwc as int) - hds, 16, 0x200000000000000);
        crate::fixed::lemma_div_pow2_bound(-(hws as int) + hdc, 16, 0x200000000000000);
        crate::fixed::lemma_div_pow2_bound(-(hwc as int) + hds, 16, 0x200000000000000);
        crate::fixed::lemma_div_pow2_bound(-(hws as int) - hdc, 16, 0x200000000000000);
        crate::fixed::lemma_div_pow2_bound(hwc + hds, 16, 0x200000000000000);
        crate::fixed::lemma_div_pow2_bound(hws - hdc, 16, 0x200000000000000);
    }
    let x1 = (crate::fixed::shr_i128(hwc - hds, 16) + cx as i128) as i64;
    let z1 = (crate::fixed::shr_i128(hws + hdc, 16) + cz as i128) as i64;
    let x2 = (crate::fixed::shr_i128(-hwc - hds, 16) + cx as i128) as i64;
    let z2 = (crate::fixed::shr_i128(-hws + hdc, 16) + cz as i128) as i64;
    let x3 = (crate::fixed::shr_i128(-hwc + hds, 16) + cx as i128) as i64;
    let z3 = (crate::fixed::shr_i128(-hws - hdc, 16) + cz as i128) as i64;
    let x4 = (crate::fixed::shr_i128(hwc + hds, 16) + cx as i128) as i64;
    let z4 = (crate::fixed::shr_i128(hws - hdc, 16) + cz as i128) as i64;
    Quad { x1, z1, x2, z2, x3, z3, x4, z4 }
}

/// A half-extent times a `Q16` cosine or sine stays well inside the corner
/// cap after the scale shift.
proof fn mul_foot_bound(h: int, t: int)
    requires
        0 <= h <= MAX_FOOT_Q32,
        -0x20000 <= t <= 0x20000,
    ensures
        -0x1000000000000000000 <= h * t <= 0x1000000000000000000,
{
    assert(-0x1000000000000000000 <= h * t <= 0x1000000000000000000) by (nonlinear_arith)
        requires
            0 <= h <= 0x80000000000000,
            -0x20000 <= t <= 0x20000,
    {}
}

/// The corner ordering yields a consistent winding for every yaw: each pair
/// of consecutive edge vectors of the unrounded corner offsets has the same
/// cross product, `4 * hw * hd * (c^2 + s^2)`, so a footprint with positive
/// half-extents and a nonzero rotation vector is convex and traversed
/// counter-consistently, never self-intersecting.
pub proof fn lemma_winding_consistent(hw: int, hd: int, c: int, s: int)
    ensures
        spec_cross(hw * c - hd * s, hw * s + hd * c, -(hw * c) - hd * s, -(hw * s) + hd * c, -(hw * c) + hd * s, -(hw * s) - hd * c)
            == 4 * (hw * hd) * (c * c + s * s),
        spec_cross(-(hw * c) - hd * s, -(hw * s) + hd * c, -(hw * c) + hd * s, -(hw * s) - hd * c, hw * c + hd * s, hw * s - hd * c)
            == 4 * (hw * hd) * (c * c + s * s),
        spec_cross(-(hw * c) + hd * s, -(hw * s) - hd * c, hw * c + hd * s, hw * s - hd * c, hw * c - hd * s, hw * s + hd * c)
            == 4 * (hw * hd) * (c * c + s * s),
        spec_cross(hw * c + hd * s, hw * s - hd * c, hw * c - hd * s, hw * s + hd * c, -(hw * c) - hd * s, -(hw * s) + hd * c)
            == 4 * (hw * hd) * (c * c + s * s),
{
    let p = hw * c;
    let q = hw * s;
    let r = hd * c;
    let t = hd * s;
    assert(((-p - t) - (p - t)) * ((-q - r) - (q + r)) - (((-q + r)) - (q + r)) * ((-p + t) - (p - t))
        == 4 * (p * r + q * t)) by (nonlinear_arith) {}
    assert(((-p + t) - (-p - t)) * ((q - r) - (-q + r)) - ((-q - r) - (-q + r)) * ((p + t) - (-p - t))
        == 4 * (p * r + q * t)) by (nonlinear_arith) {}
    assert(((p + t) - (-p + t)) * ((q + r) - (-q - r)) - ((q - r) - (-q - r)) * ((p - t) - (-p + t))
        == 4 * (p * r + q * t)) by (nonlinear_arith) {}
    assert(((p - t) - (p + t)) * ((-q + r) - (q - r)) - ((q + r) - (q - r)) * ((-p - t) - (p + t))
        == 4 * (p * r + q * t)) by (nonlinear_arith) {}
    assert(4 * (p * r + q * t) == 4 * (hw * hd) * (c * c + s * s)) by (nonlinear_arith)
        requires p == hw * c, q == hw * s, r == hd * c, t == hd * s,
    {}
}

/// Straight alpha blending of one channel: `ca` is coverage (out of 4)
/// times alpha (out of 255), so full opaque coverage is 1020; the result is
/// the coverage-weighted average of source over destination, rounded to
/// nearest.
pub open spec fn spec_blend(dst: int, src: int, ca: int) -> int {
    (src * ca + dst * (1020 - ca) + 510) / 1020
}

/// Blends one channel byte.
pub fn blend_channel(dst: u8, src: u8, ca: u32) -> (r: u8)
    requires
        ca <= 1020,
    ensures
        r as int == spec_blend(dst as int, src as int, ca as int),
{
    proof {
        let d = dst as int;
        let sc = src as int;
        let cai = ca as int;
        assert(0 <= sc * cai <= 255 * 1020) by (nonlinear_arith)
            requires 0 <= sc <= 255, 0 <= cai <= 1020,
        {}
        assert(0 <= d * (1020 - cai) <= 255 * (1020 - cai)) by (nonlinear_arith)
            requires 0 <= d <= 255, 0 <= cai <= 1020,
        {}
        assert(sc * cai <= 255 * cai) by (nonlinear_arith)
            requires 0 <= sc <= 255, 0 <= cai,
        {}
        let num = sc * cai + d * (1020 - cai) + 510;
        assert(num <= 260610);
        vstd::arithmetic::div_mod::lemma_div_is_ordered(num, 260610, 1020);
        vstd::arithmetic::div_mod::lemma_div_pos_is_pos(num, 1020);
    }
    let num: u32 = (src as u32) * ca + (dst as u32) * (1020 - ca) + 510;
    (num / 1020) as u8
}

/// Zero coverage leaves the destination channel untouched.
pub proof fn lemma_blend_keeps_dst(dst: int, src: int)
    requires
        0 <= dst <= 255,
    ensures
        spec_blend(dst, src, 0) == dst,
{
    vstd::arithmetic::div_mod::lemma_div_multiples_vanish_fancy(dst, 510, 1020);
}

/// Full coverage of an opaque color replaces the destination channel.
pub proof fn lemma_blend_replaces_dst(dst: int, src: int)
    requires
        0 <= src <= 255,
    ensures
        spec_blend(dst, src, 1020) == src,
{
    vstd::arithmetic::div_mod::lemma_div_multiples_vanish_fancy(src, 510, 1020);
}

/// The destination pixel buffer: `width * height` RGBA pixels, row-major,
/// four bytes per pixel.
#[derive(Debug)]
pub struct PixelCanvas {
    pub width: usize,
    pub height: usize,
    pub data: Vec<u8>,
}

/// The buffer length matches the dimensions, which fit the caps.
pub open spec fn wf_canvas(cv: PixelCanvas) -> bool {
    &&& cv.width <= MAX_DIM
    &&& cv.height <= MAX_DIM
    &&& cv.data@.len() == cv.width * cv.height * 4
}

/// The pixel column a flat byte index belongs to.
pub open spec fn pix_x(i: int, w: int) -> int {
    (i / 4) % w
}

/// The pixel row a flat byte index belongs to.
pub open spec fn pix_z(i: int, w: int) -> int {
    (i / 4) / w
}

/// The channel byte of a color: red, green, blue, alpha in order.
pub open spec fn channel_of(color: Rgba, ch: int) -> int {
    if ch == 0 {
        color.r as int
    } else if ch == 1 {
        color.g as int
    } else if ch == 2 {
        color.b as int
    } else {
        color.a as int
    }
}

/// The `Q32` x coordinate of subsample `k` (of four) in pixel column `px`:
/// the pixel's quarter and three-quarter points.
pub open spec fn sample_x(px: int, k: int) -> int {
    px * 0x100000000 + (if k % 2 == 0 { 0x40000000int } else { 0xC0000000int })
}

/// The `Q32` z coordinate of subsample `k` in pixel row `pz`.
pub open spec fn sample_z(pz: int, k: int) -> int {
    pz * 0x100000000 + (if k < 2 { 0x40000000int } else { 0xC0000000int })
}

/// How many of the pixel's four subsamples lie inside the quad: 0 to 4.
pub open spec fn spec_coverage(q: Quad, px: int, pz: int) -> int {
    (if spec_inside(q, sample_x(px, 0), sample_z(pz, 0)) { 1int } else { 0int })
    + (if spec_inside(q, sample_x(px, 1), sample_z(pz, 1)) { 1int } else { 0int })
    + (if spec_inside(q, sample_x(px, 2), sample_z(pz, 2)) { 1int } else { 0int })
    + (if spec_inside(q, sample_x(px, 3), sample_z(pz, 3)) { 1int } else { 0int })
}

/// The whole canvas after one quad is composited: every byte is its old
/// value blended with its channel of the color, weighted by the pixel's
/// coverage times the color's alpha.
pub open spec fn spec_fill(data: Seq<u8>, w: int, q: Quad, color: Rgba) -> Seq<u8> {
    Seq::new(
        data.len(),
        |i: int| spec_blend(
            data[i] as int,
            channel_of(color, i % 4),
            spec_coverage(q, pix_x(i, w), pix_z(i, w)) * (color.a as int),
        ) as u8,
    )
}

/// Strict interior test for one sample point.
fn inside_at(q: &Quad, sx: i64, sz: i64) -> (b: bool)
    requires
        wf_quad(*q),
        -0x400000000000 <= sx <= 0x400000000000000,
        -0x400000000000 <= sz <= 0x400000000000000,
    ensures
        b == spec_inside(*q, sx as int, sz as int),
{
    proof {
        crate::fixed::lemma_mul_bound(q.x2 as int - q.x1 as int, sz as int - q.z1 as int, 0x1000000000000000);
        crate::fixed::lemma_mul_bound(q.z2 as int - q.z1 as int, sx as int - q.x1 as int, 0x1000000000000000);
        crate::fixed::lemma_mul_bound(q.x3 as int - q.x2 as int, sz as int - q.z2 as int, 0x1000000000000000);
        crate::fixed::lemma_mul_bound(q.z3 as int - q.z2 as int, sx as int - q.x2 as int, 0x1000000000000000);
        crate::fixed::lemma_mul_bound(q.x4 as int - q.x3 as int, sz as int - q.z3 as int, 0x1000000000000000);
        crate::fixed::lemma_mul_bound(q.z4 as int - q.z3 as int, sx as int - q.x3 as int, 0x1000000000000000);
        crate::fixed::lemma_mul_bound(q.x1 as int - q.x4 as int, sz as int - q.z4 as int, 0x1000000000000000);
        crate::fixed::lemma_mul_bound(q.z1 as int - q.z4 as int, sx as int - q.x4 as int, 0x1000000000000000);
    }
    let c1: i128 = ((q.x2 as i128) - (q.x1 as i128)) * ((sz as i128) - (q.z1 as i128))
        - ((q.z2 as i128) - (q.z1 as i128)) * ((sx as i128) - (q.x1 as i128));
    let c2: i128 = ((q.x3 as i128) - (q.x2 as i128)) * ((sz as i128) - (q.z2 as i128))
        - ((q.z3 as i128) - (q.z2 as i128)) * ((sx as i128) - (q.x2 as i128));
    let c3: i128 = ((q.x4 as i128) - (q.x3 as i128)) * ((sz as i128) - (q.z3 as i128))
        - ((q.z4 as i128) - (q.z3 as i128)) * ((sx as i128) - (q.x3 as i128));
    let c4: i128 = ((q.x1 as i128) - (q.x4 as i128)) * ((sz as i128) - (q.z4 as i128))
        - ((q.z1 as i128) - (q.z4 as i128)) * ((sx as i128) - (q.x4 as i128));
    c1 > 0 && c2 > 0 && c3 > 0 && c4 > 0
}

/// Coverage of one pixel, by testing its four subsamples.
fn coverage_at(q: &Quad, px: usize, pz: usize) -> (cov: u32)
    requires
        wf_quad(*q),
        px < MAX_DIM,
        pz < MAX_DIM,
    ensures
        cov as int == spec_coverage(*q, px as int, pz as int),
        cov <= 4,
{
    let bx: i64 = (px as i64) * 0x100000000;
    let bz: i64 = (pz as i64) * 0x100000000;
    let mut cov: u32 = 0;
    if inside_at(q, bx + 0x40000000, bz + 0x40000000) {
        cov = cov + 1;
    }
    if inside_at(q, bx + 0xC0000000, bz + 0x40000000) {
        cov = cov + 1;
    }
    if inside_at(q, bx + 0x40000000, bz + 0xC0000000) {
        cov = cov + 1;
    }
    if inside_at(q, bx + 0xC0000000, bz + 0xC0000000) {
        cov = cov + 1;
    }
    cov
}

/// A flat byte index built from pixel coordinates decomposes back into
/// them.
proof fn lemma_pix_decompose(w: int, px: int, pz: int, ch: int)
    requires
        0 < w,
        0 <= px < w,
        0 <= pz,
        0 <= ch < 4,
    ensures
        ((pz * w + px) * 4 + ch) % 4 == ch,
        pix_x((pz * w + px) * 4 + ch, w) == px,
        pix_z((pz * w + px) * 4 + ch, w) == pz,
{
    let cell = pz * w + px;
    assert(cell * 4 == 4 * cell) by (nonlinear_arith) {}
    assert(w * pz == pz * w) by (nonlinear_arith) {}
    vstd::arithmetic::div_mod::lemma_mod_multiples_vanish(cell, ch, 4);
    vstd::arithmetic::div_mod::lemma_small_mod(ch as nat, 4);
    vstd::arithmetic::div_mod::lemma_div_multiples_vanish_fancy(cell, ch, 4);
    vstd::arithmetic::div_mod::lemma_mod_multiples_vanish(pz, px, w);
    vstd::arithmetic::div_mod::lemma_small_mod(px as nat, w as nat);
    vstd::arithmetic::div_mod::lemma_div_multiples_vanish_fancy(pz, px, w);
}

impl PixelCanvas {
    /// Allocates a canvas of the given dimensions, all bytes zero.
    pub fn new(width: usize, height: usize) -> (cv: PixelCanvas)
        requires
            width <= MAX_DIM,
            height <= MAX_DIM,
        ensures
            cv.width == width,
            cv.height == height,
            wf_canvas(cv),
            forall|i: int| 0 <= i < cv.data@.len() ==> cv.data@[i] == 0u8,
    {
        proof {
            assert((width as int) * (height as int) <= 0x10000000) by (nonlinear_arith)
                requires 0 <= width as int <= 0x4000, 0 <= height as int <= 0x4000,
            {}
        }
        let n: usize = width * height * 4;
        let data = vec![0u8; n];
        PixelCanvas { width, height, data }
    }
}

/// Composites one quad into the canvas: every pixel of the canvas is
/// blended with the color, weighted by its subsample coverage, exactly as
/// [`spec_fill`] describes. Pixels the quad does not touch keep their
/// bytes.
pub fn fill_quad(canvas: &mut PixelCanvas, q: &Quad, color: Rgba)
    requires
        wf_canvas(*old(canvas)),
        wf_quad(*q),
    ensures
        wf_canvas(*final(canvas)),
        final(canvas).width == old(canvas).width,
        final(canvas).height == old(canvas).height,
        final(canvas).data@ == spec_fill(old(canvas).data@, old(canvas).width as int, *q, color),
{
    let w = canvas.width;
    let h = canvas.height;
    let ghost data0 = canvas.data@;
    let ghost target = spec_fill(data0, w as int, *q, color);
    let mut pz: usize = 0;
    while pz < h
        invariant
            wf_canvas(*canvas),
            canvas.width == w,
            canvas.height == h,
            wf_quad(*q),
            pz <= h,
            canvas.data@.len() == data0.len(),
            target == spec_fill(data0, w as int, *q, color),
            target.len() == data0.len(),
            forall|j: int| 0 <= j < (pz as int) * (w as int) * 4 ==> canvas.data@[j] == target[j],
            forall|j: int| (pz as int) * (w as int) * 4 <= j < data0.len() ==> canvas.data@[j] == data0[j],
        decreases h - pz,
    {
        let mut px: usize = 0;
        proof {
            vstd::arithmetic::mul::lemma_mul_inequality(pz as int + 1, h as int, w as int);
        }
        while px < w
            invariant
                wf_canvas(*canvas),
                canvas.width == w,
                canvas.height == h,
                wf_quad(*q),
                pz < h,
                px <= w,
                canvas.data@.len() == data0.len(),
                target == spec_fill(data0, w as int, *q, color),
                target.len() == data0.len(),
                ((pz as int) + 1) * (w as int) <= (h as int) * (w as int),
                forall|j: int| 0 <= j < ((pz as int) * (w as int) + px as int) * 4 ==> canvas.data@[j] == target[j],
                forall|j: int| ((pz as int) * (w as int) + px as int) * 4 <= j < data0.len() ==> canvas.data@[j] == data0[j],
            decreases w - px,
        {
            proof {
                assert((pz as int) * (w as int) + px as int <= ((pz as int) + 1) * (w as int) - 1) by (nonlinear_arith)
                    requires 0 <= px as int, (px as int) < (w as int), 0 <= pz as int,
                {}
                assert((h as int) * (w as int) == (w as int) * (h as int)) by (nonlinear_arith) {}
                assert((h as int) * (w as int) <= 0x10000000) by (nonlinear_arith)
                    requires 0 <= h as int <= 0x4000, 0 <= w as int <= 0x4000,
                {}
            }
            let cell: usize = pz * w + px;
            let base: usize = cell * 4;
            let cov = coverage_at(q, px, pz);
            proof {
                assert(cov * (color.a as u32) <= 1020) by (nonlinear_arith)
                    requires cov <= 4, color.a <= 255,
                {}
            }
            let ca: u32 = cov * (color.a as u32);
            let ghost prewrite = canvas.data@;
            let d0 = canvas.data[base];
            let b0 = blend_channel(d0, color.r, ca);
            canvas.data[base] = b0;
            let d1 = canvas.data[base + 1];
            let b1 = blend_channel(d1, color.g, ca);
            canvas.data[base + 1] = b1;
            let d2 = canvas.data[base + 2];
            let b2 = blend_channel(d2, color.b, ca);
            canvas.data[base + 2] = b2;
            let d3 = canvas.data[base + 3];
            let b3 = blend_channel(d3, color.a, ca);
            canvas.data[base + 3] = b3;
            proof {
                lemma_pix_decompose(w as int, px as int, pz as int, 0);
                lemma_pix_decompose(w as int, px as int, pz as int, 1);
                lemma_pix_decompose(w as int, px as int, pz as int, 2);
                lemma_pix_decompose(w as int, px as int, pz as int, 3);
                assert forall|j: int| 0 <= j < ((pz as int) * (w as int) + px as int + 1) * 4 implies canvas.data@[j] == target[j] by {
                    if j < base as int {
                        assert(canvas.data@[j] == prewrite[j]);
                    } else {
                        assert(prewrite[j] == data0[j]);
                    }
                }
            }
            px = px + 1;
        }
        proof {
            assert(((pz as int) + 1) * (w as int) == (pz as int) * (w as int) + w as int) by (nonlinear_arith) {}
        }
        pz = pz + 1;
    }
    proof {
        assert((pz as int) * (w as int) * 4 >= data0.len()) by (nonlinear_arith)
            requires pz as int == h as int, data0.len() == (w as int) * (h as int) * 4,
        {}
        assert(canvas.data@ =~= target);
    }
}

/// Rasterizes one footprint: corners from center, half-extents and yaw
/// cosine/sine, then a coverage-weighted composite. Zero or negative
/// half-extents are a no-op: the canvas is left untouched and nothing
/// fails.
pub fn rasterize_footprint(canvas: &mut PixelCanvas, cx: i64, cz: i64, hw: i64, hd: i64, c: i64, s: i64, color: Rgba)
    requires
        wf_canvas(*old(canvas)),
        -MAX_FOOT_Q32 <= cx <= MAX_FOOT_Q32,
        -MAX_FOOT_Q32 <= cz <= MAX_FOOT_Q32,
        hw <= MAX_FOOT_Q32,
        hd <= MAX_FOOT_Q32,
        -0x20000 <= c <= 0x20000,
        -0x20000 <= s <= 0x20000,
    ensures
        wf_canvas(*final(canvas)),
        final(canvas).width == old(canvas).width,
        final(canvas).height == old(canvas).height,
        hw <= 0 || hd <= 0 ==> final(canvas).data@ == old(canvas).data@,
        hw > 0 && hd > 0 ==> final(canvas).data@ == spec_fill(
            old(canvas).data@,
            old(canvas).width as int,
            spec_corners(cx as int, cz as int, hw as int, hd as int, c as int, s as int),
            color,
        ),
{
    if hw <= 0 || hd <= 0 {
        return;
    }
    let q = make_quad(cx, cz, hw, hd, c, s);
    fill_quad(canvas, &q, color);
}

/// With no yaw, the footprint's interior is exactly the open axis-aligned
/// box around the center: a square of side `2 * hw` holds precisely the
/// sample points strictly between its bounds, and nothing outside them.
pub proof fn lemma_axis_aligned_inside(cx: int, cz: int, hw: int, hd: int, sx: int, sz: int)
    requires
        0 < hw <= MAX_FOOT_Q32,
        0 < hd <= MAX_FOOT_Q32,
        -MAX_FOOT_Q32 <= cx <= MAX_FOOT_Q32,
        -MAX_FOOT_Q32 <= cz <= MAX_FOOT_Q32,
    ensures
        spec_inside(spec_corners(cx, cz, hw, hd, 0x10000, 0), sx, sz)
            <==> (cx - hw < sx < cx + hw && cz - hd < sz < cz + hd),
{
    vstd::arithmetic::power2::lemma2_to64();
    vstd::arithmetic::div_mod::lemma_div_by_multiple(hw, 0x10000);
    vstd::arithmetic::div_mod::lemma_div_by_multiple(hd, 0x10000);
    vstd::arithmetic::div_mod::lemma_div_multiples_vanish_fancy(hw, 0xFFFF, 0x10000);
    vstd::arithmetic::div_mod::lemma_div_multiples_vanish_fancy(hd, 0xFFFF, 0x10000);
    let q = spec_corners(cx, cz, hw, hd, 0x10000, 0);
    assert(q.x1 == cx + hw && q.z1 == cz + hd);
    assert(q.x2 == cx - hw && q.z2 == cz + hd);
    assert(q.x3 == cx - hw && q.z3 == cz - hd);
    assert(q.x4 == cx + hw && q.z4 == cz - hd);
    assert(((cx - hw) - (cx + hw)) * (sz - (cz + hd)) - ((cz + hd) - (cz + hd)) * (sx - (cx + hw)) > 0
        <==> sz < cz + hd) by (nonlinear_arith)
        requires hw > 0,
    {}
    assert(((cx - hw) - (cx - hw)) * (sz - (cz + hd)) - ((cz - hd) - (cz + hd)) * (sx - (cx - hw)) > 0
        <==> sx > cx - hw) by (nonlinear_arith)
        requires hd > 0,
    {}
    assert(((cx + hw) - (cx - hw)) * (sz - (cz - hd)) - ((cz - hd) - (cz - hd)) * (sx - (cx - hw)) > 0
        <==> sz > cz - hd) by (nonlinear_arith)
        requires hw > 0,
    {}
    assert(((cx + hw) - (cx + hw)) * (sz - (cz - hd)) - ((cz + hd) - (cz - hd)) * (sx - (cx + hw)) > 0
        <==> sx < cx + hw) by (nonlinear_arith)
        requires hd > 0,
    {}
}

/// With no yaw, coverage is total or void pixel by pixel: a pixel whose
/// whole square lies within the box bounds has all four subsamples inside
/// (full fill), and a pixel wholly outside them has none (no fill outside
/// the box).
pub proof fn lemma_axis_aligned_coverage(cx: int, cz: int, hw: int, hd: int, px: int, pz: int)
    requires
        0 < hw <= MAX_FOOT_Q32,
        0 < hd <= MAX_FOOT_Q32,
        -MAX_FOOT_Q32 <= cx <= MAX_FOOT_Q32,
        -MAX_FOOT_Q32 <= cz <= MAX_FOOT_Q32,
        0 <= px,
        0 <= pz,
    ensures
        cx - hw <= px * 0x100000000 && (px + 1) * 0x100000000 <= cx + hw
            && cz - hd <= pz * 0x100000000 && (pz + 1) * 0x100000000 <= cz + hd
            ==> spec_coverage(spec_corners(cx, cz, hw, hd, 0x10000, 0), px, pz) == 4,
        (px + 1) * 0x100000000 <= cx - hw || px * 0x100000000 >= cx + hw
            || (pz + 1) * 0x100000000 <= cz - hd || pz * 0x100000000 >= cz + hd
            ==> spec_coverage(spec_corners(cx, cz, hw, hd, 0x10000, 0), px, pz) == 0,
{
    lemma_axis_aligned_inside(cx, cz, hw, hd, sample_x(px, 0), sample_z(pz, 0));
    lemma_axis_aligned_inside(cx, cz, hw, hd, sample_x(px, 1), sample_z(pz, 1));
    lemma_axis_aligned_inside(cx, cz, hw, hd, sample_x(px, 2), sample_z(pz, 2));
    lemma_axis_aligned_inside(cx, cz, hw, hd, sample_x(px, 3), sample_z(pz, 3));
}

/// The painter's algorithm resolves overlaps by draw order: after an opaque
/// quad `qa` and then an opaque quad `qb` are composited, a pixel fully
/// covered by `qb` shows `qb`'s color, and a pixel fully covered by `qa`
/// that `qb` misses entirely keeps `qa`'s color.
pub proof fn lemma_painters_order(data: Seq<u8>, w: int, qa: Quad, qb: Quad, ca: Rgba, cb: Rgba, i: int)
    requires
        ca.a == 255,
        cb.a == 255,
        0 <= i < data.len(),
    ensures
        spec_coverage(qb, pix_x(i, w), pix_z(i, w)) == 4
            ==> spec_fill(spec_fill(data, w, qa, ca), w, qb, cb)[i] as int == channel_of(cb, i % 4),
        spec_coverage(qb, pix_x(i, w), pix_z(i, w)) == 0 && spec_coverage(qa, pix_x(i, w), pix_z(i, w)) == 4
            ==> spec_fill(spec_fill(data, w, qa, ca), w, qb, cb)[i] as int == channel_of(ca, i % 4),
{
    let d1 = spec_fill(data, w, qa, ca);
    let d2 = spec_fill(d1, w, qb, cb);
    let px = pix_x(i, w);
    let pz = pix_z(i, w);
    let ch = i % 4;
    if spec_coverage(qb, px, pz) == 4 {
        lemma_blend_replaces_dst(d1[i] as int, channel_of(cb, ch));
    }
    if spec_coverage(qb, px, pz) == 0 && spec_coverage(qa, px, pz) == 4 {
        lemma_blend_keeps_dst(d1[i] as int, channel_of(cb, ch));
        lemma_blend_replaces_dst(data[i] as int, channel_of(ca, ch));
    }
}

} // verus!
