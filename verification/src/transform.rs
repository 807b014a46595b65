//! World-to-screen transformation.
//!
//! Vertices move from object space to world space through an affine model
//! transform, and from world space to screen space through a perspective
//! projection built from the camera's field of view, the frame aspect ratio
//! and the configured near and far planes. A screen-space point carries its
//! pixel coordinates in `x` and `y` and its depth in `z`; the depth is the
//! projected clip depth remapped into `[near, far]`, so the depth buffer
//! and the comparison in the rasterizer share one convention.

use vstd::prelude::*;

verus! {

use crate::fixed::{Fx, fx_add, fx_sub, fx_mul, fx_div, fx_divi, fx_neg, tdiv, FX_SCALE};
use crate::math::{Vec3, Quat, Mat4, m4_transform_point};
use crate::trig::{fx_tan, fx_sin, fx_cos, tan, FX_PI};
use crate::{WIDTH, HEIGHT};

/// Near plane distance in raw fixed-point units (0.01 units).
pub const NEAR_RAW: i64 = 655;

/// Far plane distance in raw fixed-point units (1,000,000 units).
pub const FAR_RAW: i64 = 65536000000;

/// The camera: a world pose, a field of view in degrees, the derived model
/// transform and its inverse, the view transform. The two matrices are
/// always recomputed together from `rotation` and `position`.
#[derive(Clone, Copy, PartialEq, Eq, Structural, Debug)]
pub struct Camera {
    pub position: Vec3,
    pub rotation: Quat,
    pub fov: Fx,
    pub model: Mat4,
    pub view: Mat4,
}

/// Apply a model transform to a vertex.
pub fn transform_vertex(vertex: Vec3, model: &Mat4) -> (r: Vec3)
    ensures
        r == m4_transform_point(*model, vertex),
{
    model.transform_point(vertex)
}

/// The element-wise transform of a polygon's vertices.
pub open spec fn spec_transform_polygon(polygon: Seq<Vec3>, model: Mat4) -> Seq<Vec3> {
    Seq::new(polygon.len(), |i: int| m4_transform_point(model, polygon[i]))
}

/// Apply a model transform to every vertex of a polygon, keeping order.
pub fn transform_polygon(polygon: &Vec<Vec3>, model: &Mat4) -> (r: Vec<Vec3>)
    ensures
        r@ == spec_transform_polygon(polygon@, *model),
{
    let mut out: Vec<Vec3> = Vec::new();
    let mut i: usize = 0;
    while i < polygon.len()
        invariant
            i <= polygon.len(),
            out@ == spec_transform_polygon(polygon@, *model).subrange(0, i as int),
        decreases polygon.len() - i,
    {
        out.push(transform_vertex(polygon[i], model));
        assert(out@ == spec_transform_polygon(polygon@, *model).subrange(0, i + 1));
        i = i + 1;
    }
    assert(spec_transform_polygon(polygon@, *model).subrange(0, polygon@.len() as int)
        == spec_transform_polygon(polygon@, *model));
    out
}

/// The element-wise transform of a mesh's polygons.
pub open spec fn spec_transform_mesh(mesh: Seq<Seq<Vec3>>, model: Mat4) -> Seq<Seq<Vec3>> {
    Seq::new(mesh.len(), |i: int| spec_transform_polygon(mesh[i], model))
}

/// Apply a model transform to every polygon of a mesh, keeping order.
pub fn transform_mesh(mesh: &Vec<Vec<Vec3>>, model: &Mat4) -> (r: Vec<Vec<Vec3>>)
    ensures
        r@.len() == mesh@.len(),
        forall|i: int|
            0 <= i < mesh@.len() ==> r@[i]@ == spec_transform_polygon(mesh@[i]@, *model),
{
    let mut out: Vec<Vec<Vec3>> = Vec::new();
    let mut i: usize = 0;
    while i < mesh.len()
        invariant
            i <= mesh.len(),
            out@.len() == i,
            forall|j: int|
                0 <= j < i ==> out@[j]@ == spec_transform_polygon(mesh@[j]@, *model),
        decreases mesh.len() - i,
    {
        out.push(transform_polygon(&mesh[i], model));
        i = i + 1;
    }
    out
}

/// A screen point rejected before the homogeneous divide (degenerate
/// projection or a point in the camera plane): its depth lies past the far
/// plane, so every bounds check drops it.
pub open spec fn dropped_point() -> Vec3 {
    Vec3 {
        x: Fx { raw: (-FX_SCALE) as i64 },
        y: Fx { raw: (-FX_SCALE) as i64 },
        z: Fx { raw: (FAR_RAW + 1) as i64 },
    }
}

/// The perspective projection of a world-space vertex to screen space: view
/// transform, projection by the frustum derived from `fov` and the aspect
/// ratio, homogeneous divide, and the map from normalized device
/// coordinates to pixel coordinates and `[near, far]` depth.
pub open spec fn spec_world_to_screen(vertex: Vec3, camera: Camera) -> Vec3 {
    let w = Fx { raw: (WIDTH * 65536) as i64 };
    let h = Fx { raw: (HEIGHT * 65536) as i64 };
    let n = Fx { raw: NEAR_RAW };
    let f = Fx { raw: FAR_RAW };
    let phi = fx_mul(fx_divi(camera.fov, 180), Fx { raw: FX_PI });
    let rr = fx_mul(fx_tan(fx_divi(phi, 2)), n);
    let tt = fx_div(fx_mul(rr, h), w);
    if rr.raw == 0 || tt.raw == 0 {
        dropped_point()
    } else {
        let eye = m4_transform_point(camera.view, vertex);
        let clip_w = fx_neg(eye.z);
        if clip_w.raw == 0 {
            dropped_point()
        } else {
            let aa = fx_neg(fx_div(fx_add(f, n), fx_sub(f, n)));
            let bb = fx_neg(fx_div(fx_mul(fx_mul(Fx { raw: 131072 }, f), n), fx_sub(f, n)));
            let clip_x = fx_mul(fx_div(n, rr), eye.x);
            let clip_y = fx_mul(fx_div(n, tt), eye.y);
            let clip_z = fx_add(fx_mul(aa, eye.z), bb);
            let ndc_x = fx_div(clip_x, clip_w);
            let ndc_y = fx_div(clip_y, clip_w);
            let ndc_z = fx_div(clip_z, clip_w);
            Vec3 {
                x: fx_add(fx_mul(fx_divi(w, 2), ndc_x), fx_divi(w, 2)),
                y: fx_add(fx_mul(fx_divi(h, 2), ndc_y), fx_divi(h, 2)),
                z: fx_add(fx_mul(fx_divi(fx_sub(f, n), 2), ndc_z), fx_divi(fx_add(f, n), 2)),
            }
        }
    }
}

/// Project a world-space vertex to screen space.
pub fn transform_world_to_screen(vertex: Vec3, camera: &Camera) -> (r: Vec3)
    ensures
        r == spec_world_to_screen(vertex, *camera),
{
    let w = Fx::from_raw((WIDTH * 65536) as i64);
    let h = Fx::from_raw((HEIGHT * 65536) as i64);
    let n = Fx::from_raw(NEAR_RAW);
    let f = Fx::from_raw(FAR_RAW);
    let phi = camera.fov.div_by(180).mul(Fx::from_raw(FX_PI));
    let rr = tan(phi.div_by(2)).mul(n);
    if rr.raw == 0 {
        return Vec3 {
            x: Fx::from_raw(-FX_SCALE),
            y: Fx::from_raw(-FX_SCALE),
            z: Fx::from_raw(FAR_RAW + 1),
        };
    }
    let tt = rr.mul(h).div(w);
    if tt.raw == 0 {
        return Vec3 {
            x: Fx::from_raw(-FX_SCALE),
            y: Fx::from_raw(-FX_SCALE),
            z: Fx::from_raw(FAR_RAW + 1),
        };
    }
    let eye = camera.view.transform_point(vertex);
    let clip_w = eye.z.neg();
    if clip_w.raw == 0 {
        return Vec3 {
            x: Fx::from_raw(-FX_SCALE),
            y: Fx::from_raw(-FX_SCALE),
            z: Fx::from_raw(FAR_RAW + 1),
        };
    }
    let aa = f.add(n).div(f.sub(n)).neg();
    let bb = Fx::from_raw(131072).mul(f).mul(n).div(f.sub(n)).neg();
    let clip_x = n.div(rr).mul(eye.x);
    let clip_y = n.div(tt).mul(eye.y);
    let clip_z = aa.mul(eye.z).add(bb);
    let ndc_x = clip_x.div(clip_w);
    let ndc_y = clip_y.div(clip_w);
    let ndc_z = clip_z.div(clip_w);
    Vec3 {
        x: w.div_by(2).mul(ndc_x).add(w.div_by(2)),
        y: h.div_by(2).mul(ndc_y).add(h.div_by(2)),
        z: f.sub(n).div_by(2).mul(ndc_z).add(f.add(n).div_by(2)),
    }
}

/// Whether a screen point lies outside the tolerance-expanded viewport or
/// outside the `[0, far]` depth range. Such points are dropped, not
/// clipped.
pub open spec fn spec_out_of_bounds(p: Vec3, tolerance: int) -> bool {
    tdiv(p.x.raw as int, FX_SCALE as int) < -tolerance
        || tdiv(p.x.raw as int, FX_SCALE as int) >= WIDTH + tolerance
        || tdiv(p.y.raw as int, FX_SCALE as int) < -tolerance
        || tdiv(p.y.raw as int, FX_SCALE as int) >= HEIGHT + tolerance
        || p.z.raw < 0
        || p.z.raw > FAR_RAW
}

/// Check a screen point against the tolerance-expanded viewport and the
/// depth range.
pub fn out_of_bounds(p: Vec3, tolerance: i64) -> (r: bool)
    requires
        0 <= tolerance <= 100000,
    ensures
        r == spec_out_of_bounds(p, tolerance as int),
{
    let px = p.x.trunc();
    let py = p.y.trunc();
    px < -tolerance || px >= WIDTH as i64 + tolerance || py < -tolerance || py >= HEIGHT as i64
        + tolerance || p.z.raw < 0 || p.z.raw > FAR_RAW
}

/// Projection round-trip at the image center: with the camera at the
/// origin looking down the negative z axis at a 90 degree field of view, a
/// point straight ahead at any visible distance lands exactly on the
/// center pixel.
pub proof fn lemma_projection_center(camera: Camera, d: Fx)
    requires
        camera.view == crate::math::m4_identity(),
        camera.fov == (Fx { raw: 5898240 }),
        0 < d.raw <= FAR_RAW,
    ensures
        spec_world_to_screen(Vec3 { x: Fx { raw: 0 }, y: Fx { raw: 0 }, z: fx_neg(d) }, camera).x
            == (Fx { raw: 10485760 }),
        spec_world_to_screen(Vec3 { x: Fx { raw: 0 }, y: Fx { raw: 0 }, z: fx_neg(d) }, camera).y
            == (Fx { raw: 7864320 }),
{
    lemma_proj_constants();
    let v = Vec3 { x: Fx { raw: 0 }, y: Fx { raw: 0 }, z: fx_neg(d) };
    let phi = fx_mul(fx_divi(camera.fov, 180), Fx { raw: crate::trig::FX_PI });
    assert(phi == (Fx { raw: 102943 }));
    let rr = fx_mul(fx_tan(fx_divi(phi, 2)), Fx { raw: NEAR_RAW });
    assert(rr == (Fx { raw: 655 }));
    let tt = fx_div(fx_mul(rr, Fx { raw: 15728640 }), Fx { raw: 20971520 });
    assert(tt == (Fx { raw: 491 }));
    crate::fixed::lemma_fx_mul_one(v.z);
    crate::fixed::lemma_fx_mul_zero(Fx { raw: 65536 });
    crate::fixed::lemma_fx_mul_zero(Fx { raw: 0 });
    crate::fixed::lemma_fx_mul_zero(fx_neg(d));
    let eye = m4_transform_point(camera.view, v);
    assert(eye == (Vec3 { x: Fx { raw: 0 }, y: Fx { raw: 0 }, z: fx_neg(d) }));
    assert(eye.z.raw == -d.raw);
    let clip_w = fx_neg(eye.z);
    assert(clip_w == d);
    crate::fixed::lemma_fx_mul_zero(fx_div(Fx { raw: NEAR_RAW }, rr));
    crate::fixed::lemma_fx_mul_zero(fx_div(Fx { raw: NEAR_RAW }, tt));
    assert(fx_div(Fx { raw: 0 }, clip_w) == (Fx { raw: 0 }));
    crate::fixed::lemma_fx_mul_zero(Fx { raw: 10485760 });
    crate::fixed::lemma_fx_mul_zero(Fx { raw: 7864320 });
}

/// Projected depth never decreases with distance: for points straight
/// ahead of the centered camera, a farther point projects to a depth at
/// least as large. (Strict growth can collapse at neighbouring distances
/// because the fixed-point divide truncates.)
pub proof fn lemma_projection_depth_monotone(camera: Camera, d1: Fx, d2: Fx)
    requires
        camera.view == crate::math::m4_identity(),
        camera.fov == (Fx { raw: 5898240 }),
        0 < d1.raw <= d2.raw <= FAR_RAW,
    ensures
        spec_world_to_screen(
            Vec3 { x: Fx { raw: 0 }, y: Fx { raw: 0 }, z: fx_neg(d1) },
            camera,
        ).z.raw <= spec_world_to_screen(
            Vec3 { x: Fx { raw: 0 }, y: Fx { raw: 0 }, z: fx_neg(d2) },
            camera,
        ).z.raw,
{
    let f = Fx { raw: FAR_RAW };
    let n = Fx { raw: NEAR_RAW };
    lemma_proj_constants();
    let aa = fx_neg(fx_div(fx_add(f, n), fx_sub(f, n)));
    let bb = fx_neg(fx_div(fx_mul(fx_mul(Fx { raw: 131072 }, f), n), fx_sub(f, n)));
    assert(aa == (Fx { raw: (-65536) as i64 }));
    assert(bb == (Fx { raw: (-1310) as i64 }));
    lemma_center_clip(camera, d1);
    lemma_center_clip(camera, d2);
    let z1 = fx_div(Fx { raw: (d1.raw - 1310) as i64 }, d1);
    let z2 = fx_div(Fx { raw: (d2.raw - 1310) as i64 }, d2);
    assert((d1.raw - 1310) * FX_SCALE * d2.raw <= (d2.raw - 1310) * FX_SCALE * d1.raw) by (
    nonlinear_arith)
        requires
            0 < d1.raw <= d2.raw,
    ;
    crate::fixed::lemma_tdiv_cross(
        (d1.raw - 1310) * FX_SCALE,
        d1.raw as int,
        (d2.raw - 1310) * FX_SCALE,
        d2.raw as int,
    );
    assert(z1.raw <= z2.raw);
    let c = fx_divi(fx_sub(f, n), 2);
    assert(c == (Fx { raw: 32767999672 }));
    crate::fixed::lemma_fx_mul_monotone(c, z1, z2);
    assert(fx_mul(c, z1).raw <= fx_mul(c, z2).raw);
}

/// For a point straight ahead of the centered camera, the projected depth
/// is exactly the fixed-point counterpart of the closed form
/// `(far + near) - far*near/d` remapped through the pixel-depth stage:
/// the half-range scale times the truncated quotient of `d - 0.02` by
/// `d`, plus the mid-range offset.
pub proof fn lemma_center_clip(camera: Camera, d: Fx)
    requires
        camera.view == crate::math::m4_identity(),
        camera.fov == (Fx { raw: 5898240 }),
        0 < d.raw <= FAR_RAW,
    ensures
        spec_world_to_screen(Vec3 { x: Fx { raw: 0 }, y: Fx { raw: 0 }, z: fx_neg(d) }, camera).z
            == fx_add(
            fx_mul(
                Fx { raw: 32767999672 },
                fx_div(Fx { raw: (d.raw - 1310) as i64 }, d),
            ),
            Fx { raw: 32768000327 },
        ),
{
    lemma_proj_constants();
    let v = Vec3 { x: Fx { raw: 0 }, y: Fx { raw: 0 }, z: fx_neg(d) };
    let phi = fx_mul(fx_divi(camera.fov, 180), Fx { raw: crate::trig::FX_PI });
    assert(phi == (Fx { raw: 102943 }));
    let rr = fx_mul(fx_tan(fx_divi(phi, 2)), Fx { raw: NEAR_RAW });
    assert(rr == (Fx { raw: 655 }));
    let tt = fx_div(fx_mul(rr, Fx { raw: 15728640 }), Fx { raw: 20971520 });
    assert(tt == (Fx { raw: 491 }));
    crate::fixed::lemma_fx_mul_one(v.z);
    crate::fixed::lemma_fx_mul_zero(Fx { raw: 65536 });
    crate::fixed::lemma_fx_mul_zero(Fx { raw: 0 });
    crate::fixed::lemma_fx_mul_zero(fx_neg(d));
    let eye = m4_transform_point(camera.view, v);
    assert(eye == (Vec3 { x: Fx { raw: 0 }, y: Fx { raw: 0 }, z: fx_neg(d) }));
    let clip_w = fx_neg(eye.z);
    assert(clip_w == d);
    let f = Fx { raw: FAR_RAW };
    let n = Fx { raw: NEAR_RAW };
    let aa = fx_neg(fx_div(fx_add(f, n), fx_sub(f, n)));
    let bb = fx_neg(fx_div(fx_mul(fx_mul(Fx { raw: 131072 }, f), n), fx_sub(f, n)));
    assert(aa == (Fx { raw: (-65536) as i64 }));
    assert(bb == (Fx { raw: (-1310) as i64 }));
    crate::fixed::lemma_fx_mul_minus_one(eye.z);
    assert(fx_mul(aa, eye.z) == fx_neg(eye.z));
    assert(fx_neg(eye.z) == d);
    let clip_z = fx_add(fx_mul(aa, eye.z), bb);
    assert(clip_z == (Fx { raw: (d.raw - 1310) as i64 }));
    assert(fx_divi(fx_sub(f, n), 2) == (Fx { raw: 32767999672 }));
    assert(fx_divi(fx_add(f, n), 2) == (Fx { raw: 32768000327 }));
}


/// The concrete values of every constant in the projection pipeline at a
/// 90 degree field of view: the half-angle tangent is exactly 1, the
/// clip-depth coefficient is exactly -1, and the depth offset is -0.02.
#[verifier::rlimit(100)]
#[verifier::spinoff_prover]
pub proof fn lemma_proj_constants()
    ensures
        fx_divi(Fx { raw: 5898240 }, 180) == (Fx { raw: 32768 }),
        fx_mul(Fx { raw: 32768 }, Fx { raw: 205887 }) == (Fx { raw: 102943 }),
        fx_divi(Fx { raw: 102943 }, 2) == (Fx { raw: 51471 }),
        fx_tan(Fx { raw: 51471 }) == (Fx { raw: 65536 }),
        fx_mul(Fx { raw: 65536 }, Fx { raw: 655 }) == (Fx { raw: 655 }),
        fx_mul(Fx { raw: 655 }, Fx { raw: 15728640 }) == (Fx { raw: 157200 }),
        fx_div(Fx { raw: 157200 }, Fx { raw: 20971520 }) == (Fx { raw: 491 }),
        fx_neg(fx_div(fx_add(Fx { raw: 65536000000 }, Fx { raw: 655 }), fx_sub(Fx { raw: 65536000000 }, Fx { raw: 655 }))) == (Fx { raw: (-65536) as i64 }),
        fx_neg(fx_div(fx_mul(fx_mul(Fx { raw: 131072 }, Fx { raw: 65536000000 }), Fx { raw: 655 }), fx_sub(Fx { raw: 65536000000 }, Fx { raw: 655 }))) == (Fx { raw: (-1310) as i64 }),
        fx_divi(fx_sub(Fx { raw: 65536000000 }, Fx { raw: 655 }), 2) == (Fx { raw: 32767999672 }),
        fx_divi(fx_add(Fx { raw: 65536000000 }, Fx { raw: 655 }), 2) == (Fx { raw: 32768000327 }),
{
    assert(32768 * 180 + 0 == 5898240) by (nonlinear_arith);
    crate::fixed::lemma_tdiv_concrete(5898240, 180, 32768, 0);
    assert(fx_divi(Fx { raw: 5898240 }, 180) == Fx { raw: 32768 });
    assert(32768 * 205887 == 6746505216) by (nonlinear_arith);
    assert(102943 * 65536 + 32768 == 6746505216) by (nonlinear_arith);
    crate::fixed::lemma_tdiv_concrete(6746505216, 65536, 102943, 32768);
    assert(fx_mul(Fx { raw: 32768 }, Fx { raw: 205887 }) == Fx { raw: 102943 });
    assert(51471 * 2 + 1 == 102943) by (nonlinear_arith);
    crate::fixed::lemma_tdiv_concrete(102943, 2, 51471, 1);
    assert(fx_divi(Fx { raw: 102943 }, 2) == Fx { raw: 51471 });
    assert(51471 * 51471 == 2649263841) by (nonlinear_arith);
    assert(40424 * 65536 + 36577 == 2649263841) by (nonlinear_arith);
    crate::fixed::lemma_tdiv_concrete(2649263841, 65536, 40424, 36577);
    assert(fx_mul(Fx { raw: 51471 }, Fx { raw: 51471 }) == Fx { raw: 40424 });
    assert(40424 * 51471 == 2080663704) by (nonlinear_arith);
    assert(31748 * 65536 + 26776 == 2080663704) by (nonlinear_arith);
    crate::fixed::lemma_tdiv_concrete(2080663704, 65536, 31748, 26776);
    assert(fx_mul(Fx { raw: 40424 }, Fx { raw: 51471 }) == Fx { raw: 31748 });
    assert(31748 * 40424 == 1283381152) by (nonlinear_arith);
    assert(19582 * 65536 + 55200 == 1283381152) by (nonlinear_arith);
    crate::fixed::lemma_tdiv_concrete(1283381152, 65536, 19582, 55200);
    assert(fx_mul(Fx { raw: 31748 }, Fx { raw: 40424 }) == Fx { raw: 19582 });
    assert(19582 * 40424 == 791582768) by (nonlinear_arith);
    assert(12078 * 65536 + 38960 == 791582768) by (nonlinear_arith);
    crate::fixed::lemma_tdiv_concrete(791582768, 65536, 12078, 38960);
    assert(fx_mul(Fx { raw: 19582 }, Fx { raw: 40424 }) == Fx { raw: 12078 });
    assert(5291 * 6 + 2 == 31748) by (nonlinear_arith);
    crate::fixed::lemma_tdiv_concrete(31748, 6, 5291, 2);
    assert(fx_divi(Fx { raw: 31748 }, 6) == Fx { raw: 5291 });
    assert(163 * 120 + 22 == 19582) by (nonlinear_arith);
    crate::fixed::lemma_tdiv_concrete(19582, 120, 163, 22);
    assert(fx_divi(Fx { raw: 19582 }, 120) == Fx { raw: 163 });
    assert(2 * 5040 + 1998 == 12078) by (nonlinear_arith);
    crate::fixed::lemma_tdiv_concrete(12078, 5040, 2, 1998);
    assert(fx_divi(Fx { raw: 12078 }, 5040) == Fx { raw: 2 });
    assert(fx_sin(Fx { raw: 51471 }) == Fx { raw: 46341 });
    assert(40424 * 40424 == 1634099776) by (nonlinear_arith);
    assert(24934 * 65536 + 25152 == 1634099776) by (nonlinear_arith);
    crate::fixed::lemma_tdiv_concrete(1634099776, 65536, 24934, 25152);
    assert(fx_mul(Fx { raw: 40424 }, Fx { raw: 40424 }) == Fx { raw: 24934 });
    assert(24934 * 40424 == 1007932016) by (nonlinear_arith);
    assert(15379 * 65536 + 53872 == 1007932016) by (nonlinear_arith);
    crate::fixed::lemma_tdiv_concrete(1007932016, 65536, 15379, 53872);
    assert(fx_mul(Fx { raw: 24934 }, Fx { raw: 40424 }) == Fx { raw: 15379 });
    assert(20212 * 2 + 0 == 40424) by (nonlinear_arith);
    crate::fixed::lemma_tdiv_concrete(40424, 2, 20212, 0);
    assert(fx_divi(Fx { raw: 40424 }, 2) == Fx { raw: 20212 });
    assert(1038 * 24 + 22 == 24934) by (nonlinear_arith);
    crate::fixed::lemma_tdiv_concrete(24934, 24, 1038, 22);
    assert(fx_divi(Fx { raw: 24934 }, 24) == Fx { raw: 1038 });
    assert(21 * 720 + 259 == 15379) by (nonlinear_arith);
    crate::fixed::lemma_tdiv_concrete(15379, 720, 21, 259);
    assert(fx_divi(Fx { raw: 15379 }, 720) == Fx { raw: 21 });
    assert(fx_cos(Fx { raw: 51471 }) == Fx { raw: 46341 });
    assert(46341 * 65536 == 3037003776) by (nonlinear_arith);
    assert(65536 * 46341 + 0 == 3037003776) by (nonlinear_arith);
    crate::fixed::lemma_tdiv_concrete(3037003776, 46341, 65536, 0);
    assert(fx_div(Fx { raw: 46341 }, Fx { raw: 46341 }) == Fx { raw: 65536 });
    assert(fx_tan(Fx { raw: 51471 }) == Fx { raw: 65536 });
    assert(65536 * 655 == 42926080) by (nonlinear_arith);
    assert(655 * 65536 + 0 == 42926080) by (nonlinear_arith);
    crate::fixed::lemma_tdiv_concrete(42926080, 65536, 655, 0);
    assert(fx_mul(Fx { raw: 65536 }, Fx { raw: 655 }) == Fx { raw: 655 });
    assert(655 * 15728640 == 10302259200) by (nonlinear_arith);
    assert(157200 * 65536 + 0 == 10302259200) by (nonlinear_arith);
    crate::fixed::lemma_tdiv_concrete(10302259200, 65536, 157200, 0);
    assert(fx_mul(Fx { raw: 655 }, Fx { raw: 15728640 }) == Fx { raw: 157200 });
    assert(157200 * 65536 == 10302259200) by (nonlinear_arith);
    assert(491 * 20971520 + 5242880 == 10302259200) by (nonlinear_arith);
    crate::fixed::lemma_tdiv_concrete(10302259200, 20971520, 491, 5242880);
    assert(fx_div(Fx { raw: 157200 }, Fx { raw: 20971520 }) == Fx { raw: 491 });
    assert(65536000655 * 65536 == 4294967338926080) by (nonlinear_arith);
    assert(65536 * 65535999345 + 85852160 == 4294967338926080) by (nonlinear_arith);
    crate::fixed::lemma_tdiv_concrete(4294967338926080, 65535999345, 65536, 85852160);
    assert(fx_div(Fx { raw: 65536000655 }, Fx { raw: 65535999345 }) == Fx { raw: 65536 });
    assert(fx_neg(fx_div(fx_add(Fx { raw: 65536000000 }, Fx { raw: 655 }), fx_sub(Fx { raw: 65536000000 }, Fx { raw: 655 }))) == Fx { raw: (-65536) as i64 });
    assert(131072 * 65536000000 == 8589934592000000) by (nonlinear_arith);
    assert(131072000000 * 65536 + 0 == 8589934592000000) by (nonlinear_arith);
    crate::fixed::lemma_tdiv_concrete(8589934592000000, 65536, 131072000000, 0);
    assert(fx_mul(Fx { raw: 131072 }, Fx { raw: 65536000000 }) == Fx { raw: 131072000000 });
    assert(131072000000 * 655 == 85852160000000) by (nonlinear_arith);
    assert(1310000000 * 65536 + 0 == 85852160000000) by (nonlinear_arith);
    crate::fixed::lemma_tdiv_concrete(85852160000000, 65536, 1310000000, 0);
    assert(fx_mul(Fx { raw: 131072000000 }, Fx { raw: 655 }) == Fx { raw: 1310000000 });
    assert(1310000000 * 65536 == 85852160000000) by (nonlinear_arith);
    assert(1310 * 65535999345 + 858050 == 85852160000000) by (nonlinear_arith);
    crate::fixed::lemma_tdiv_concrete(85852160000000, 65535999345, 1310, 858050);
    assert(fx_div(Fx { raw: 1310000000 }, Fx { raw: 65535999345 }) == Fx { raw: 1310 });
    assert(fx_neg(fx_div(fx_mul(fx_mul(Fx { raw: 131072 }, Fx { raw: 65536000000 }), Fx { raw: 655 }), fx_sub(Fx { raw: 65536000000 }, Fx { raw: 655 }))) == Fx { raw: (-1310) as i64 });
    assert(32767999672 * 2 + 1 == 65535999345) by (nonlinear_arith);
    crate::fixed::lemma_tdiv_concrete(65535999345, 2, 32767999672, 1);
    assert(fx_divi(Fx { raw: 65535999345 }, 2) == Fx { raw: 32767999672 });
    assert(32768000327 * 2 + 1 == 65536000655) by (nonlinear_arith);
    crate::fixed::lemma_tdiv_concrete(65536000655, 2, 32768000327, 1);
    assert(fx_divi(Fx { raw: 65536000655 }, 2) == Fx { raw: 32768000327 });
}

} // verus!