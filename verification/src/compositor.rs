//! The compositor owns the pixel canvas and applies draw commands in
//! order: for each command it extracts the yaw from the rotation matrix,
//! projects center and extents into pixel space, and rasterizes the
//! oriented footprint. The whole render is one fold of commands over the
//! zero canvas, stated exactly.

use vstd::prelude::*;

verus! {

use crate::fixed::div_pow2;
use crate::project::{Projector, spec_project_x, spec_project_z, MAX_SCALE_Q16, MAX_CENTER_Q16};
use crate::raster::{PixelCanvas, wf_canvas, spec_fill, spec_corners, rasterize_footprint, MAX_DIM};
use crate::rotation::spec_matrix_axis_angle;
use crate::trig::spec_cos_sin;
use crate::scene::{SceneTree, RenderConfig, SceneError, DrawCommand, wf_tree, wf_command, spec_select, select_draw_commands};

/// Output dimensions and the world-to-pixel map for one render.
#[derive(Clone, Copy, Debug)]
pub struct RenderParams {
    pub width: usize,
    pub height: usize,
    /// Uniform world-to-pixel scale, `Q16`.
    pub scale: i64,
    /// Pixel x of the world origin, `Q16`.
    pub center_x: i64,
    /// Pixel z of the world origin, `Q16`.
    pub center_z: i64,
}

/// Dimension and projection ranges under which rendering cannot overflow.
pub open spec fn wf_params(p: RenderParams) -> bool {
    &&& p.width <= MAX_DIM
    &&& p.height <= MAX_DIM
    &&& 0 <= p.scale <= MAX_SCALE_Q16
    &&& -MAX_CENTER_Q16 <= p.center_x <= MAX_CENTER_Q16
    &&& -MAX_CENTER_Q16 <= p.center_z <= MAX_CENTER_Q16
}

/// The projector a parameter set induces.
pub open spec fn spec_projector(p: RenderParams) -> Projector {
    Projector { scale: p.scale, center_x: p.center_x, center_z: p.center_z }
}

/// The canvas bytes after one draw command: yaw from the rotation matrix,
/// cosine and sine of it brought to `Q16`, center and half-extents
/// projected, and the footprint composited. A degenerate footprint leaves
/// the canvas untouched.
pub open spec fn spec_apply(data: Seq<u8>, p: RenderParams, cmd: DrawCommand) -> Seq<u8> {
    let aa = spec_matrix_axis_angle(cmd.rot);
    let cs = spec_cos_sin(aa.1);
    let c = div_pow2(cs.0, 16);
    let s = div_pow2(cs.1, 16);
    let px = spec_project_x(spec_projector(p), cmd.pos_x as int);
    let pz = spec_project_z(spec_projector(p), cmd.pos_z as int);
    let hw = div_pow2(cmd.size_x * p.scale, 1);
    let hd = div_pow2(cmd.size_z * p.scale, 1);
    if hw <= 0 || hd <= 0 {
        data
    } else {
        spec_fill(data, p.width as int, spec_corners(px, pz, hw, hd, c, s), cmd.color)
    }
}

/// The canvas bytes after the commands `cmds[j..]` are applied in order.
pub open spec fn spec_render_cmds(data: Seq<u8>, p: RenderParams, cmds: Seq<DrawCommand>, j: int) -> Seq<u8>
    decreases cmds.len() - j,
{
    if j < 0 || j >= cmds.len() {
        data
    } else {
        spec_render_cmds(spec_apply(data, p, cmds[j]), p, cmds, j + 1)
    }
}

/// A canvas of the configured size with every byte zero.
pub open spec fn spec_zero_canvas(p: RenderParams) -> Seq<u8> {
    Seq::new((p.width * p.height * 4) as nat, |i: int| 0u8)
}

/// The whole render: the selected draw commands folded over the zero
/// canvas, or the selection error.
pub open spec fn spec_render(t: SceneTree, cfg: RenderConfig, p: RenderParams) -> Result<Seq<u8>, SceneError> {
    match spec_select(t, cfg) {
        Err(e) => Err(e),
        Ok(cmds) => Ok(spec_render_cmds(spec_zero_canvas(p), p, cmds, 0)),
    }
}

/// Applies one draw command to the canvas, exactly as [`spec_apply`].
pub fn apply_command(canvas: &mut PixelCanvas, p: RenderParams, cmd: &DrawCommand)
    requires
        wf_canvas(*old(canvas)),
        old(canvas).width == p.width,
        old(canvas).height == p.height,
        wf_params(p),
        wf_command(*cmd),
    ensures
        wf_canvas(*final(canvas)),
        final(canvas).width == p.width,
        final(canvas).height == p.height,
        final(canvas).data@ == spec_apply(old(canvas).data@, p, *cmd),
{
    let aa = crate::rotation::matrix3_to_axis_angle(cmd.rot);
    let cs = crate::trig::cos_sin(aa.y);
    proof {
        vstd::arithmetic::power2::lemma2_to64();
        crate::fixed::lemma_div_pow2_bound(cs.0 as int, 16, 0x10000);
        crate::fixed::lemma_div_pow2_bound(cs.1 as int, 16, 0x10000);
    }
    let c = crate::fixed::shr_i128(cs.0 as i128, 16) as i64;
    let s = crate::fixed::shr_i128(cs.1 as i128, 16) as i64;
    let proj = Projector::new(p.scale, p.center_x, p.center_z);
    let pr = proj.project(cmd.pos_x, cmd.pos_z);
    proof {
        assert(-0x8000000000000 <= (cmd.size_x as int) * (p.scale as int) <= 0x8000000000000) by (nonlinear_arith)
            requires
                -0x80000000 <= cmd.size_x as int <= 0x80000000,
                0 <= p.scale as int <= 0x100000,
        {}
        assert(-0x8000000000000 <= (cmd.size_z as int) * (p.scale as int) <= 0x8000000000000) by (nonlinear_arith)
            requires
                -0x80000000 <= cmd.size_z as int <= 0x80000000,
                0 <= p.scale as int <= 0x100000,
        {}
    }
    let hw = crate::fixed::shr_i128((cmd.size_x as i128) * (p.scale as i128), 1) as i64;
    let hd = crate::fixed::shr_i128((cmd.size_z as i128) * (p.scale as i128), 1) as i64;
    rasterize_footprint(canvas, pr.0, pr.1, hw, hd, c, s, cmd.color);
}

/// Renders the scene: selects draw commands as the configuration directs
/// and composites them in order onto a fresh canvas of the configured
/// size. Fails exactly when selection fails, with the same error.
pub fn render(t: &SceneTree, cfg: &RenderConfig, p: RenderParams) -> (r: Result<PixelCanvas, SceneError>)
    requires
        wf_tree(*t),
        wf_params(p),
    ensures
        (r is Ok <==> spec_render(*t, *cfg, p) is Ok),
        r is Ok ==> r->Ok_0.data@ == spec_render(*t, *cfg, p)->Ok_0
            && r->Ok_0.width == p.width
            && r->Ok_0.height == p.height
            && wf_canvas(r->Ok_0),
        r is Err ==> r->Err_0 == spec_render(*t, *cfg, p)->Err_0,
{
    let cmds = match select_draw_commands(t, cfg) {
        Ok(v) => v,
        Err(e) => {
            return Err(e);
        },
    };
    let mut canvas = PixelCanvas::new(p.width, p.height);
    proof {
        assert(canvas.data@ =~= spec_zero_canvas(p));
    }
    let ghost start = canvas.data@;
    let n = cmds.len();
    let mut j: usize = 0;
    while j < n
        invariant
            wf_canvas(canvas),
            canvas.width == p.width,
            canvas.height == p.height,
            wf_params(p),
            j <= n,
            n == cmds@.len(),
            forall|k: int| 0 <= k < cmds@.len() ==> wf_command(#[trigger] cmds@[k]),
            spec_render_cmds(canvas.data@, p, cmds@, j as int) == spec_render_cmds(start, p, cmds@, 0),
        decreases n - j,
    {
        apply_command(&mut canvas, p, &cmds[j]);
        j = j + 1;
    }
    Ok(canvas)
}

} // verus!
