//! Orthographic top-down projection: world-space horizontal coordinates map
//! into image pixel space by one uniform scale and a center offset. The
//! vertical world axis is dropped entirely.
//!
//! World values are `Q16`; projected pixel coordinates are `Q32`, so the
//! product of a coordinate and the scale factor is carried exactly and the
//! map is affine with no rounding at all.

use vstd::prelude::*;

verus! {

/// Largest world coordinate magnitude the projector accepts, `Q16`.
pub const MAX_WORLD_Q16: i64 = 0x80000000;

/// Largest scale factor, `Q16` (a sixteen-fold blowup).
pub const MAX_SCALE_Q16: i64 = 0x100000;

/// Largest center offset magnitude, `Q16` pixels.
pub const MAX_CENTER_Q16: i64 = 0x40000000;

/// The affine world-to-pixel map: `pixel = world * scale + center`.
#[derive(Clone, Copy, Debug)]
pub struct Projector {
    /// Uniform scale factor, `Q16`.
    pub scale: i64,
    /// Pixel x of the world origin, `Q16`.
    pub center_x: i64,
    /// Pixel z of the world origin, `Q16`.
    pub center_z: i64,
}

/// Parameter ranges under which every projection fits its machine integers.
pub open spec fn wf_projector(p: Projector) -> bool {
    &&& 0 <= p.scale <= MAX_SCALE_Q16
    &&& -MAX_CENTER_Q16 <= p.center_x <= MAX_CENTER_Q16
    &&& -MAX_CENTER_Q16 <= p.center_z <= MAX_CENTER_Q16
}

/// The projected x coordinate at `Q32`, exactly.
pub open spec fn spec_project_x(p: Projector, wx: int) -> int {
    wx * p.scale + p.center_x * 0x10000
}

/// The projected z coordinate at `Q32`, exactly.
pub open spec fn spec_project_z(p: Projector, wz: int) -> int {
    wz * p.scale + p.center_z * 0x10000
}

impl Projector {
    /// Builds a projector from scale and center, both `Q16`.
    pub fn new(scale: i64, center_x: i64, center_z: i64) -> (p: Projector)
        requires
            0 <= scale <= MAX_SCALE_Q16,
            -MAX_CENTER_Q16 <= center_x <= MAX_CENTER_Q16,
            -MAX_CENTER_Q16 <= center_z <= MAX_CENTER_Q16,
        ensures
            p.scale == scale,
            p.center_x == center_x,
            p.center_z == center_z,
            wf_projector(p),
    {
        Projector { scale, center_x, center_z }
    }

    /// Projects a world-space point's horizontal coordinates into `Q32`
    /// pixel space.
    pub fn project(&self, wx: i64, wz: i64) -> (r: (i64, i64))
        requires
            wf_projector(*self),
            -MAX_WORLD_Q16 <= wx <= MAX_WORLD_Q16,
            -MAX_WORLD_Q16 <= wz <= MAX_WORLD_Q16,
        ensures
            r.0 as int == spec_project_x(*self, wx as int),
            r.1 as int == spec_project_z(*self, wz as int),
            -0x10000000000000 <= r.0 <= 0x10000000000000,
            -0x10000000000000 <= r.1 <= 0x10000000000000,
    {
        proof {
            assert(-0x8000000000000 <= (wx as int) * (self.scale as int) <= 0x8000000000000) by (nonlinear_arith)
                requires
                    -0x80000000 <= wx as int <= 0x80000000,
                    0 <= self.scale as int <= 0x100000,
            {}
            assert(-0x8000000000000 <= (wz as int) * (self.scale as int) <= 0x8000000000000) by (nonlinear_arith)
                requires
                    -0x80000000 <= wz as int <= 0x80000000,
                    0 <= self.scale as int <= 0x100000,
            {}
        }
        let px = ((wx as i128) * (self.scale as i128) + (self.center_x as i128) * 0x10000) as i64;
        let pz = ((wz as i128) * (self.scale as i128) + (self.center_z as i128) * 0x10000) as i64;
        (px, pz)
    }

    /// Scales a world-space full extent to a `Q32` pixel half-extent: the
    /// object reaches half its size to each side of its center.
    pub fn scale_half_extent(&self, size: i64) -> (r: i64)
        requires
            wf_projector(*self),
            0 <= size <= MAX_WORLD_Q16,
        ensures
            r as int == ((size as int) * (self.scale as int)) / 2,
            0 <= r <= 0x4000000000000,
    {
        proof {
            assert(0 <= (size as int) * (self.scale as int) <= 0x8000000000000) by (nonlinear_arith)
                requires
                    0 <= size as int <= 0x80000000,
                    0 <= self.scale as int <= 0x100000,
            {}
        }
        let sc = (size as i128) * (self.scale as i128);
        (((sc as u128) / 2) as i64)
    }
}

/// The projection is affine: the world origin lands exactly on the
/// configured center, and moving a world input by `e` moves the output by
/// exactly `e * scale`, independent of where the move starts.
pub proof fn lemma_projection_affine(p: Projector, wx: int, wz: int, e: int)
    ensures
        spec_project_x(p, 0) == p.center_x * 0x10000,
        spec_project_z(p, 0) == p.center_z * 0x10000,
        spec_project_x(p, wx + e) - spec_project_x(p, wx) == e * p.scale,
        spec_project_z(p, wz + e) - spec_project_z(p, wz) == e * p.scale,
{
    assert((wx + e) * p.scale == wx * p.scale + e * p.scale) by (nonlinear_arith) {}
    assert((wz + e) * p.scale == wz * p.scale + e * p.scale) by (nonlinear_arith) {}
    assert(0 * p.scale == 0) by (nonlinear_arith) {}
}

} // verus!
