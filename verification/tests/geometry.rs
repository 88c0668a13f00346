use road_render::fixed::{Q16, Q32, PI_Q32, HALF_PI_Q32};
use road_render::project::Projector;
use road_render::raster::{PixelCanvas, Rgba, make_quad, fill_quad, rasterize_footprint, blend_channel};
use road_render::rotation::{Matrix3, AxisAngle, QuatBranch, matrix3_to_axis_angle, select_branch, yaw_matrix};
use road_render::trig::{cos_sin, atan2_q1, isqrt_u128};

fn identity() -> Matrix3 {
    Matrix3 { r00: Q32, r01: 0, r02: 0, r10: 0, r11: Q32, r12: 0, r20: 0, r21: 0, r22: Q32 }
}

fn pixel(cv: &PixelCanvas, px: usize, pz: usize) -> (u8, u8, u8, u8) {
    let base = (pz * cv.width + px) * 4;
    (cv.data[base], cv.data[base + 1], cv.data[base + 2], cv.data[base + 3])
}

// Tolerance of 1e-4 radians at Q32.
const TOL: i64 = 429497;

#[test]
fn extractor_identity_is_zero() {
    let aa = matrix3_to_axis_angle(identity());
    assert_eq!(aa.x, 0);
    assert_eq!(aa.y, 0);
    assert_eq!(aa.z, 0);
}

#[test]
fn extractor_quarter_turn_yaw() {
    // cos(pi/2) = 0, sin(pi/2) = 1.
    let m = yaw_matrix(0, Q32);
    let aa = matrix3_to_axis_angle(m);
    assert!((aa.y - HALF_PI_Q32).abs() < TOL, "y = {}", aa.y);
    assert!(aa.x.abs() < TOL);
    assert!(aa.z.abs() < TOL);
}

#[test]
fn extractor_round_trip_across_yaws() {
    // Sampled yaw angles across [-pi, pi], including branch boundaries.
    let samples: Vec<i64> = vec![
        -PI_Q32,
        -(3 * PI_Q32 / 4),
        -HALF_PI_Q32,
        -(PI_Q32 / 3),
        -1000000,
        0,
        1000000,
        PI_Q32 / 4,
        HALF_PI_Q32,
        3 * PI_Q32 / 4,
        PI_Q32,
    ];
    for &th in samples.iter() {
        let (c, s) = cos_sin(th);
        let m = yaw_matrix(c, s);
        let aa = matrix3_to_axis_angle(m);
        let two_pi = 2 * PI_Q32;
        let d0 = (aa.y - th).abs();
        let d1 = (aa.y - th + two_pi).abs();
        let d2 = (aa.y - th - two_pi).abs();
        let d = d0.min(d1).min(d2);
        assert!(d < TOL, "yaw {} came back as {}", th, aa.y);
        assert!(aa.x.abs() < TOL);
        assert!(aa.z.abs() < TOL);
    }
}

#[test]
fn axis_angle_new_stores_components() {
    let aa = AxisAngle::new(1, -2, 3);
    assert_eq!(aa.x, 1);
    assert_eq!(aa.y, -2);
    assert_eq!(aa.z, 3);
}

#[test]
fn trig_zero_angle_is_exact() {
    let (c, s) = cos_sin(0);
    assert_eq!(c, Q32);
    assert_eq!(s, 0);
}

#[test]
fn trig_cos_sin_accuracy() {
    // cos(pi/3) = 0.5, sin(pi/3) = 0.8660254...
    let third = PI_Q32 / 3;
    let (c, s) = cos_sin(third);
    assert!((c - Q32 / 2).abs() < TOL, "c = {}", c);
    let sin60 = 3719550785i64; // round(0.86602540 * 2^32)
    assert!((s - sin60).abs() < TOL, "s = {}", s);
}

#[test]
fn trig_atan2_diagonal_is_eighth_turn() {
    let a = atan2_q1(1000, 1000);
    let eighth = HALF_PI_Q32 / 2;
    assert!((a - eighth).abs() < TOL, "a = {}", a);
    assert_eq!(atan2_q1(0, 77), 0);
    assert_eq!(atan2_q1(77, 0), HALF_PI_Q32);
}

#[test]
fn isqrt_exact_values() {
    assert_eq!(isqrt_u128(0), 0);
    assert_eq!(isqrt_u128(1), 1);
    assert_eq!(isqrt_u128(3), 1);
    assert_eq!(isqrt_u128(4), 2);
    assert_eq!(isqrt_u128(1 << 66), 1 << 33);
    assert_eq!(isqrt_u128((1 << 66) - 1), (1 << 33) - 1);
}

#[test]
fn projector_is_affine() {
    let p = Projector::new(2 * Q16, 100 * Q16, 50 * Q16);
    // The world origin lands exactly on the configured center.
    let origin = p.project(0, 0);
    assert_eq!(origin.0, 100 * Q32);
    assert_eq!(origin.1, 50 * Q32);
    // Moving the input by e moves the output by exactly e * scale.
    let a = p.project(7 * Q16, -3 * Q16);
    let b = p.project(7 * Q16 + 3 * Q16, -3 * Q16);
    assert_eq!(b.0 - a.0, 3 * 2 * Q32);
    assert_eq!(b.1, a.1);
}

#[test]
fn projector_half_extent() {
    let p = Projector::new(2 * Q16, 0, 0);
    assert_eq!(p.scale_half_extent(5 * Q16), 5 * Q32);
}

#[test]
fn raster_axis_aligned_square() {
    // A square of side 4 pixels centered at (8, 8), yaw zero, opaque red:
    // pixels 6..=9 in both axes are filled, everything else untouched.
    let mut cv = PixelCanvas::new(16, 16);
    let red = Rgba { r: 255, g: 0, b: 0, a: 255 };
    rasterize_footprint(&mut cv, 8 * Q32, 8 * Q32, 2 * Q32, 2 * Q32, Q16, 0, red);
    for pz in 0..16 {
        for px in 0..16 {
            let inside = (6..10).contains(&px) && (6..10).contains(&pz);
            let got = pixel(&cv, px, pz);
            if inside {
                assert_eq!(got, (255, 0, 0, 255), "pixel ({}, {})", px, pz);
            } else {
                assert_eq!(got, (0, 0, 0, 0), "pixel ({}, {})", px, pz);
            }
        }
    }
}

#[test]
fn raster_degenerate_extents_draw_nothing() {
    let mut cv = PixelCanvas::new(8, 8);
    let red = Rgba { r: 255, g: 0, b: 0, a: 255 };
    rasterize_footprint(&mut cv, 4 * Q32, 4 * Q32, 0, 2 * Q32, Q16, 0, red);
    rasterize_footprint(&mut cv, 4 * Q32, 4 * Q32, 2 * Q32, 0, Q16, 0, red);
    rasterize_footprint(&mut cv, 4 * Q32, 4 * Q32, -3 * Q32, 2 * Q32, Q16, 0, red);
    rasterize_footprint(&mut cv, 4 * Q32, 4 * Q32, 2 * Q32, -3 * Q32, Q16, 0, red);
    for i in 0..cv.data.len() {
        assert_eq!(cv.data[i], 0);
    }
}

#[test]
fn raster_painters_algorithm_overlap() {
    // Opaque red covers columns 0..8; opaque blue then covers columns 0..4.
    // The overlap resolves to blue; the rest stays red.
    let mut cv = PixelCanvas::new(8, 8);
    let red = Rgba { r: 255, g: 0, b: 0, a: 255 };
    let blue = Rgba { r: 0, g: 0, b: 255, a: 255 };
    rasterize_footprint(&mut cv, 4 * Q32, 4 * Q32, 4 * Q32, 4 * Q32, Q16, 0, red);
    rasterize_footprint(&mut cv, 2 * Q32, 4 * Q32, 2 * Q32, 4 * Q32, Q16, 0, blue);
    assert_eq!(pixel(&cv, 1, 3), (0, 0, 255, 255));
    assert_eq!(pixel(&cv, 3, 6), (0, 0, 255, 255));
    assert_eq!(pixel(&cv, 5, 3), (255, 0, 0, 255));
    assert_eq!(pixel(&cv, 7, 7), (255, 0, 0, 255));
}

#[test]
fn raster_rotated_square_quarter_turn() {
    // A quarter turn maps the 2x6 box onto a 6x2 footprint.
    let mut cv = PixelCanvas::new(16, 16);
    let red = Rgba { r: 255, g: 0, b: 0, a: 255 };
    rasterize_footprint(&mut cv, 8 * Q32, 8 * Q32, Q32, 3 * Q32, 0, Q16, red);
    assert_eq!(pixel(&cv, 6, 8), (255, 0, 0, 255));
    assert_eq!(pixel(&cv, 10, 8), (255, 0, 0, 255));
    assert_eq!(pixel(&cv, 8, 6), (0, 0, 0, 0));
    assert_eq!(pixel(&cv, 8, 10), (0, 0, 0, 0));
}

#[test]
fn blend_channel_formula() {
    // Full opaque coverage replaces the destination.
    assert_eq!(blend_channel(17, 255, 1020), 255);
    // Zero coverage keeps it.
    assert_eq!(blend_channel(100, 200, 0), 100);
    // Half alpha over black: (255 * 510 + 510) / 1020 = 128.
    assert_eq!(blend_channel(0, 255, 510), 128);
}

#[test]
fn semitransparent_fill_blends() {
    let mut cv = PixelCanvas::new(4, 4);
    let half_red = Rgba { r: 255, g: 0, b: 0, a: 128 };
    let q = make_quad(2 * Q32, 2 * Q32, 2 * Q32, 2 * Q32, Q16, 0);
    fill_quad(&mut cv, &q, half_red);
    // Full coverage, alpha 128: (255 * 512 + 510) / 1020 = 128.
    assert_eq!(pixel(&cv, 1, 1), (128, 0, 0, 64));
}

#[test]
fn branch_selection_is_largest_quantity() {
    assert_eq!(select_branch(10, 1, 2, 3), QuatBranch::FromTrace);
    assert_eq!(select_branch(1, 10, 2, 3), QuatBranch::FromX);
    assert_eq!(select_branch(1, 2, 10, 3), QuatBranch::FromY);
    assert_eq!(select_branch(1, 2, 3, 10), QuatBranch::FromZ);
    // Ties fall through to the later branch.
    assert_eq!(select_branch(5, 5, 1, 1), QuatBranch::FromX);
}

fn diag(a: i64, b: i64, c: i64) -> Matrix3 {
    Matrix3 { r00: a, r01: 0, r02: 0, r10: 0, r11: b, r12: 0, r20: 0, r21: 0, r22: c }
}

#[test]
fn extractor_half_turn_about_each_axis() {
    // Each half-turn rotation drives a different extraction branch and
    // must come back as +-pi on its own axis.
    let ax = matrix3_to_axis_angle(diag(Q32, -Q32, -Q32));
    assert!((ax.x.abs() - PI_Q32).abs() < TOL, "x = {}", ax.x);
    assert!(ax.y.abs() < TOL && ax.z.abs() < TOL);

    let ay = matrix3_to_axis_angle(diag(-Q32, Q32, -Q32));
    assert!((ay.y.abs() - PI_Q32).abs() < TOL, "y = {}", ay.y);
    assert!(ay.x.abs() < TOL && ay.z.abs() < TOL);

    let az = matrix3_to_axis_angle(diag(-Q32, -Q32, Q32));
    assert!((az.z.abs() - PI_Q32).abs() < TOL, "z = {}", az.z);
    assert!(az.x.abs() < TOL && az.y.abs() < TOL);
}

#[test]
fn quad_corners_axis_aligned_are_exact() {
    let q = make_quad(8 * Q32, 6 * Q32, 2 * Q32, Q32, Q16, 0);
    assert_eq!((q.x1, q.z1), (10 * Q32, 7 * Q32));
    assert_eq!((q.x2, q.z2), (6 * Q32, 7 * Q32));
    assert_eq!((q.x3, q.z3), (6 * Q32, 5 * Q32));
    assert_eq!((q.x4, q.z4), (10 * Q32, 5 * Q32));
}

#[test]
fn extractor_eighth_turn_yaw() {
    // cos(pi/4) = sin(pi/4) = 0.70710678; the yaw comes back as pi/4.
    let c = 3037000500i64; // round(0.70710678 * 2^32)
    let m = yaw_matrix(c, c);
    let aa = matrix3_to_axis_angle(m);
    let eighth = HALF_PI_Q32 / 2;
    assert!((aa.y - eighth).abs() < TOL, "y = {}", aa.y);
    assert!(aa.x.abs() < TOL);
    assert!(aa.z.abs() < TOL);
}

#[test]
fn raster_diagonal_square_covers_diamond() {
    // A 45-degree yaw turns the square into a diamond: the face centers
    // stay covered, the old corners fall outside.
    let mut cv = PixelCanvas::new(16, 16);
    let red = Rgba { r: 255, g: 0, b: 0, a: 255 };
    let c = 46341i64; // round(0.70710678 * 2^16)
    rasterize_footprint(&mut cv, 8 * Q32, 8 * Q32, 3 * Q32, 3 * Q32, c, c, red);
    // The center and points along the axes are inside the diamond.
    assert_eq!(pixel(&cv, 8, 8), (255, 0, 0, 255));
    assert_eq!(pixel(&cv, 10, 8), (255, 0, 0, 255));
    assert_eq!(pixel(&cv, 8, 10), (255, 0, 0, 255));
    // The square's old corners are outside it.
    assert_eq!(pixel(&cv, 11, 11), (0, 0, 0, 0));
    assert_eq!(pixel(&cv, 4, 4), (0, 0, 0, 0));
}
