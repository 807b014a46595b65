//! Fixed-point linear algebra: 3-vectors, quaternions and affine 4x4
//! transforms.
//!
//! A [`Mat4`] stores only the affine part of a 4x4 matrix (three linear
//! columns and a translation column); every matrix built or consumed by this
//! crate has `(0, 0, 0, 1)` as its implicit bottom row. Quaternion and
//! matrix formulas follow the usual rotation conventions: `inverse` of a
//! quaternion is its conjugate (the inverse of a unit rotation), Euler
//! angles compose intrinsically about X, then Y, then Z.

use vstd::prelude::*;

verus! {

use crate::fixed::{Fx, fx_add, fx_sub, fx_mul, fx_neg, fx_sqrt, fx_div, fx_divi};
use crate::trig::{fx_sin, fx_cos, fx_atan2, sin, cos, atan2};

/// A 3-component fixed-point vector.
#[derive(Clone, Copy, PartialEq, Eq, Structural, Debug)]
pub struct Vec3 {
    pub x: Fx,
    pub y: Fx,
    pub z: Fx,
}

/// A fixed-point quaternion, `w` the scalar part.
#[derive(Clone, Copy, PartialEq, Eq, Structural, Debug)]
pub struct Quat {
    pub x: Fx,
    pub y: Fx,
    pub z: Fx,
    pub w: Fx,
}

/// An affine transform: three linear columns and a translation column, the
/// bottom row of the 4x4 matrix being `(0, 0, 0, 1)` implicitly.
#[derive(Clone, Copy, PartialEq, Eq, Structural, Debug)]
pub struct Mat4 {
    pub x_axis: Vec3,
    pub y_axis: Vec3,
    pub z_axis: Vec3,
    pub w_axis: Vec3,
}

pub open spec fn v3(x: int, y: int, z: int) -> Vec3 {
    Vec3 { x: Fx { raw: x as i64 }, y: Fx { raw: y as i64 }, z: Fx { raw: z as i64 } }
}

pub open spec fn v3_zero() -> Vec3 {
    Vec3 { x: Fx { raw: 0 }, y: Fx { raw: 0 }, z: Fx { raw: 0 } }
}

pub open spec fn v3_add(a: Vec3, b: Vec3) -> Vec3 {
    Vec3 { x: fx_add(a.x, b.x), y: fx_add(a.y, b.y), z: fx_add(a.z, b.z) }
}

pub open spec fn v3_sub(a: Vec3, b: Vec3) -> Vec3 {
    Vec3 { x: fx_sub(a.x, b.x), y: fx_sub(a.y, b.y), z: fx_sub(a.z, b.z) }
}

pub open spec fn v3_neg(a: Vec3) -> Vec3 {
    Vec3 { x: fx_neg(a.x), y: fx_neg(a.y), z: fx_neg(a.z) }
}

pub open spec fn v3_scale(a: Vec3, s: Fx) -> Vec3 {
    Vec3 { x: fx_mul(a.x, s), y: fx_mul(a.y, s), z: fx_mul(a.z, s) }
}

pub open spec fn v3_dot(a: Vec3, b: Vec3) -> Fx {
    fx_add(fx_add(fx_mul(a.x, b.x), fx_mul(a.y, b.y)), fx_mul(a.z, b.z))
}

pub open spec fn v3_cross(a: Vec3, b: Vec3) -> Vec3 {
    Vec3 {
        x: fx_sub(fx_mul(a.y, b.z), fx_mul(a.z, b.y)),
        y: fx_sub(fx_mul(a.z, b.x), fx_mul(a.x, b.z)),
        z: fx_sub(fx_mul(a.x, b.y), fx_mul(a.y, b.x)),
    }
}

pub open spec fn v3_len_sq(a: Vec3) -> Fx {
    v3_dot(a, a)
}

pub open spec fn v3_len(a: Vec3) -> Fx {
    fx_sqrt(v3_len_sq(a))
}

/// The unit vector along `a`; the zero vector stays zero (degenerate
/// directions are dropped rather than divided by).
pub open spec fn v3_normalize(a: Vec3) -> Vec3 {
    let l = v3_len(a);
    if l.raw == 0 {
        v3_zero()
    } else {
        Vec3 { x: fx_div(a.x, l), y: fx_div(a.y, l), z: fx_div(a.z, l) }
    }
}

pub open spec fn q_identity() -> Quat {
    Quat { x: Fx { raw: 0 }, y: Fx { raw: 0 }, z: Fx { raw: 0 }, w: Fx { raw: 65536 } }
}

/// The conjugate, which is the inverse of a unit rotation.
pub open spec fn q_conjugate(q: Quat) -> Quat {
    Quat { x: fx_neg(q.x), y: fx_neg(q.y), z: fx_neg(q.z), w: q.w }
}

/// The Hamilton product `a * b`.
pub open spec fn q_mul(a: Quat, b: Quat) -> Quat {
    Quat {
        x: fx_sub(fx_add(fx_add(fx_mul(a.w, b.x), fx_mul(a.x, b.w)), fx_mul(a.y, b.z)), fx_mul(a.z, b.y)),
        y: fx_add(fx_add(fx_sub(fx_mul(a.w, b.y), fx_mul(a.x, b.z)), fx_mul(a.y, b.w)), fx_mul(a.z, b.x)),
        z: fx_add(fx_sub(fx_add(fx_mul(a.w, b.z), fx_mul(a.x, b.y)), fx_mul(a.y, b.x)), fx_mul(a.z, b.w)),
        w: fx_sub(fx_sub(fx_sub(fx_mul(a.w, b.w), fx_mul(a.x, b.x)), fx_mul(a.y, b.y)), fx_mul(a.z, b.z)),
    }
}

/// Rotation of a vector by a quaternion:
/// `v (w^2 - b.b) + b (2 (v.b)) + (b x v) (2 w)` with `b` the vector part.
pub open spec fn q_rotate(q: Quat, v: Vec3) -> Vec3 {
    let b = Vec3 { x: q.x, y: q.y, z: q.z };
    let b2 = v3_dot(b, b);
    let s1 = v3_scale(v, fx_sub(fx_mul(q.w, q.w), b2));
    let s2 = v3_scale(b, fx_mul(v3_dot(v, b), Fx { raw: 131072 }));
    let s3 = v3_scale(v3_cross(b, v), fx_mul(q.w, Fx { raw: 131072 }));
    v3_add(v3_add(s1, s2), s3)
}

/// The quaternion of intrinsic X-then-Y-then-Z Euler angles.
pub open spec fn q_from_euler_xyz(x: Fx, y: Fx, z: Fx) -> Quat {
    let ti = fx_divi(x, 2);
    let tj = fx_divi(fx_neg(y), 2);
    let th = fx_divi(z, 2);
    let si = fx_sin(ti);
    let ci = fx_cos(ti);
    let sj = fx_sin(tj);
    let cj = fx_cos(tj);
    let sh = fx_sin(th);
    let ch = fx_cos(th);
    let cc = fx_mul(ci, ch);
    let cs = fx_mul(ci, sh);
    let sc = fx_mul(si, ch);
    let ss = fx_mul(si, sh);
    Quat {
        x: fx_sub(fx_mul(cj, sc), fx_mul(sj, cs)),
        y: fx_neg(fx_add(fx_mul(cj, ss), fx_mul(sj, cc))),
        z: fx_sub(fx_mul(cj, cs), fx_mul(sj, sc)),
        w: fx_add(fx_mul(cj, cc), fx_mul(sj, ss)),
    }
}

/// The rotation quaternion about a unit axis.
pub open spec fn q_from_axis_angle(axis: Vec3, angle: Fx) -> Quat {
    let half = fx_divi(angle, 2);
    let s = fx_sin(half);
    Quat {
        x: fx_mul(axis.x, s),
        y: fx_mul(axis.y, s),
        z: fx_mul(axis.z, s),
        w: fx_cos(half),
    }
}

/// First column of the rotation matrix of `q`.
pub open spec fn q_axis_x(q: Quat) -> Vec3 {
    let two = Fx { raw: 131072 };
    Vec3 {
        x: fx_sub(Fx { raw: 65536 }, fx_mul(two, fx_add(fx_mul(q.y, q.y), fx_mul(q.z, q.z)))),
        y: fx_mul(two, fx_add(fx_mul(q.x, q.y), fx_mul(q.w, q.z))),
        z: fx_mul(two, fx_sub(fx_mul(q.x, q.z), fx_mul(q.w, q.y))),
    }
}

/// Second column of the rotation matrix of `q`.
pub open spec fn q_axis_y(q: Quat) -> Vec3 {
    let two = Fx { raw: 131072 };
    Vec3 {
        x: fx_mul(two, fx_sub(fx_mul(q.x, q.y), fx_mul(q.w, q.z))),
        y: fx_sub(Fx { raw: 65536 }, fx_mul(two, fx_add(fx_mul(q.x, q.x), fx_mul(q.z, q.z)))),
        z: fx_mul(two, fx_add(fx_mul(q.y, q.z), fx_mul(q.w, q.x))),
    }
}

/// Third column of the rotation matrix of `q`.
pub open spec fn q_axis_z(q: Quat) -> Vec3 {
    let two = Fx { raw: 131072 };
    Vec3 {
        x: fx_mul(two, fx_add(fx_mul(q.x, q.z), fx_mul(q.w, q.y))),
        y: fx_mul(two, fx_sub(fx_mul(q.y, q.z), fx_mul(q.w, q.x))),
        z: fx_sub(Fx { raw: 65536 }, fx_mul(two, fx_add(fx_mul(q.x, q.x), fx_mul(q.y, q.y)))),
    }
}

/// Intrinsic X-then-Y-then-Z Euler angles of a rotation, extracted from its
/// matrix columns through the two-argument arctangent; the near-gimbal-lock
/// branch fixes the third angle to zero.
pub open spec fn q_to_euler_xyz(q: Quat) -> Vec3 {
    let xa = q_axis_x(q);
    let ya = q_axis_y(q);
    let za = q_axis_z(q);
    let cy = fx_sqrt(fx_add(fx_mul(xa.x, xa.x), fx_mul(ya.x, ya.x)));
    if cy.raw > 16 {
        Vec3 {
            x: fx_neg(fx_atan2(za.y, za.z)),
            y: fx_neg(fx_atan2(fx_neg(za.x), cy)),
            z: fx_neg(fx_atan2(ya.x, xa.x)),
        }
    } else {
        Vec3 {
            x: fx_neg(fx_atan2(fx_neg(ya.z), ya.y)),
            y: fx_neg(fx_atan2(fx_neg(za.x), cy)),
            z: Fx { raw: 0 },
        }
    }
}

/// The quaternion of an orthonormal rotation matrix given by its three
/// columns, through the largest-component branch of the standard
/// conversion; a degenerate matrix (a vanishing divisor) yields the
/// identity rather than dividing by zero.
pub open spec fn q_from_rotation_axes(xa: Vec3, ya: Vec3, za: Vec3) -> Quat {
    let half = Fx { raw: 32768 };
    let one = Fx { raw: 65536 };
    if za.z.raw <= 0 {
        let dif10 = fx_sub(ya.y, xa.x);
        let omm22 = fx_sub(one, za.z);
        if dif10.raw <= 0 {
            let four_xsq = fx_sub(omm22, dif10);
            if four_xsq.raw < 0 || fx_sqrt(four_xsq).raw == 0 {
                q_identity()
            } else {
                let inv = fx_div(half, fx_sqrt(four_xsq));
                Quat {
                    x: fx_mul(four_xsq, inv),
                    y: fx_mul(fx_add(xa.y, ya.x), inv),
                    z: fx_mul(fx_add(xa.z, za.x), inv),
                    w: fx_mul(fx_sub(ya.z, za.y), inv),
                }
            }
        } else {
            let four_ysq = fx_add(omm22, dif10);
            if four_ysq.raw < 0 || fx_sqrt(four_ysq).raw == 0 {
                q_identity()
            } else {
                let inv = fx_div(half, fx_sqrt(four_ysq));
                Quat {
                    x: fx_mul(fx_add(xa.y, ya.x), inv),
                    y: fx_mul(four_ysq, inv),
                    z: fx_mul(fx_add(ya.z, za.y), inv),
                    w: fx_mul(fx_sub(za.x, xa.z), inv),
                }
            }
        }
    } else {
        let sum10 = fx_add(ya.y, xa.x);
        let opm22 = fx_add(one, za.z);
        if sum10.raw <= 0 {
            let four_zsq = fx_sub(opm22, sum10);
            if four_zsq.raw < 0 || fx_sqrt(four_zsq).raw == 0 {
                q_identity()
            } else {
                let inv = fx_div(half, fx_sqrt(four_zsq));
                Quat {
                    x: fx_mul(fx_add(xa.z, za.x), inv),
                    y: fx_mul(fx_add(ya.z, za.y), inv),
                    z: fx_mul(four_zsq, inv),
                    w: fx_mul(fx_sub(xa.y, ya.x), inv),
                }
            }
        } else {
            let four_wsq = fx_add(opm22, sum10);
            if four_wsq.raw < 0 || fx_sqrt(four_wsq).raw == 0 {
                q_identity()
            } else {
                let inv = fx_div(half, fx_sqrt(four_wsq));
                Quat {
                    x: fx_mul(fx_sub(ya.z, za.y), inv),
                    y: fx_mul(fx_sub(za.x, xa.z), inv),
                    z: fx_mul(fx_sub(xa.y, ya.x), inv),
                    w: fx_mul(four_wsq, inv),
                }
            }
        }
    }
}

/// The right-handed look-at rotation: the view rotation whose rows are the
/// camera's right, up and backward directions, derived from the eye
/// position, the look target and an up hint.
pub open spec fn q_look_at_rh(eye: Vec3, center: Vec3, up: Vec3) -> Quat {
    let f = v3_normalize(v3_sub(center, eye));
    let s = v3_normalize(v3_cross(f, up));
    let u = v3_cross(s, f);
    q_from_rotation_axes(
        Vec3 { x: s.x, y: u.x, z: fx_neg(f.x) },
        Vec3 { x: s.y, y: u.y, z: fx_neg(f.y) },
        Vec3 { x: s.z, y: u.z, z: fx_neg(f.z) },
    )
}

pub open spec fn m4_identity() -> Mat4 {
    Mat4 {
        x_axis: v3(65536, 0, 0),
        y_axis: v3(0, 65536, 0),
        z_axis: v3(0, 0, 65536),
        w_axis: v3_zero(),
    }
}

/// The affine transform of a rotation followed by a translation.
pub open spec fn m4_from_quat_translation(q: Quat, t: Vec3) -> Mat4 {
    Mat4 { x_axis: q_axis_x(q), y_axis: q_axis_y(q), z_axis: q_axis_z(q), w_axis: t }
}

pub open spec fn m4_from_translation(t: Vec3) -> Mat4 {
    Mat4 {
        x_axis: v3(65536, 0, 0),
        y_axis: v3(0, 65536, 0),
        z_axis: v3(0, 0, 65536),
        w_axis: t,
    }
}

pub open spec fn m4_from_scale(s: Vec3) -> Mat4 {
    Mat4 {
        x_axis: Vec3 { x: s.x, y: Fx { raw: 0 }, z: Fx { raw: 0 } },
        y_axis: Vec3 { x: Fx { raw: 0 }, y: s.y, z: Fx { raw: 0 } },
        z_axis: Vec3 { x: Fx { raw: 0 }, y: Fx { raw: 0 }, z: s.z },
        w_axis: v3_zero(),
    }
}

/// Application of the linear part only (for direction vectors).
pub open spec fn m4_transform_vec(m: Mat4, v: Vec3) -> Vec3 {
    v3_add(v3_add(v3_scale(m.x_axis, v.x), v3_scale(m.y_axis, v.y)), v3_scale(m.z_axis, v.z))
}

/// Application of the affine transform to a point.
pub open spec fn m4_transform_point(m: Mat4, v: Vec3) -> Vec3 {
    v3_add(m4_transform_vec(m, v), m.w_axis)
}

/// Composition `a * b` (apply `b`, then `a`).
pub open spec fn m4_mul(a: Mat4, b: Mat4) -> Mat4 {
    Mat4 {
        x_axis: m4_transform_vec(a, b.x_axis),
        y_axis: m4_transform_vec(a, b.y_axis),
        z_axis: m4_transform_vec(a, b.z_axis),
        w_axis: m4_transform_point(a, b.w_axis),
    }
}

/// The inverse of a rotation-plus-translation transform: the transpose of
/// the linear part and the back-rotated, negated translation. Exact only
/// when the linear part is orthonormal.
pub open spec fn m4_rigid_inverse(m: Mat4) -> Mat4 {
    let tx = Vec3 { x: m.x_axis.x, y: m.y_axis.x, z: m.z_axis.x };
    let ty = Vec3 { x: m.x_axis.y, y: m.y_axis.y, z: m.z_axis.y };
    let tz = Vec3 { x: m.x_axis.z, y: m.y_axis.z, z: m.z_axis.z };
    let inv = Mat4 { x_axis: tx, y_axis: ty, z_axis: tz, w_axis: v3_zero() };
    Mat4 {
        x_axis: tx,
        y_axis: ty,
        z_axis: tz,
        w_axis: v3_neg(m4_transform_vec(inv, m.w_axis)),
    }
}

/// The Euler angles (0, 0, 0) give the identity rotation.
pub proof fn lemma_q_from_euler_zero()
    ensures
        q_from_euler_xyz(Fx { raw: 0 }, Fx { raw: 0 }, Fx { raw: 0 }) == q_identity(),
{
    let z = Fx { raw: 0 };
    let one = Fx { raw: 65536 };
    assert(fx_divi(z, 2) == z);
    assert(fx_sin(z) == z);
    assert(fx_cos(z) == one);
    crate::fixed::lemma_fx_mul_one(one);
    crate::fixed::lemma_fx_mul_zero(one);
    assert(fx_mul(z, z) == z);
}

/// The identity quaternion is neutral for the Hamilton product.
pub proof fn lemma_q_mul_identity(a: Quat)
    ensures
        q_mul(a, q_identity()) == a,
        q_mul(q_identity(), a) == a,
{
    crate::fixed::lemma_fx_mul_one(a.x);
    crate::fixed::lemma_fx_mul_one(a.y);
    crate::fixed::lemma_fx_mul_one(a.z);
    crate::fixed::lemma_fx_mul_one(a.w);
    crate::fixed::lemma_fx_mul_zero(a.x);
    crate::fixed::lemma_fx_mul_zero(a.y);
    crate::fixed::lemma_fx_mul_zero(a.z);
    crate::fixed::lemma_fx_mul_zero(a.w);
}

/// Rotating by the identity quaternion leaves a vector unchanged.
pub proof fn lemma_q_rotate_identity(v: Vec3)
    ensures
        q_rotate(q_identity(), v) == v,
{
    let z = Fx { raw: 0 };
    let one = Fx { raw: 65536 };
    let two = Fx { raw: 131072 };
    let q = q_identity();
    let b = Vec3 { x: q.x, y: q.y, z: q.z };
    assert(b == v3_zero());
    crate::fixed::lemma_fx_mul_zero(v.x);
    crate::fixed::lemma_fx_mul_zero(v.y);
    crate::fixed::lemma_fx_mul_zero(v.z);
    crate::fixed::lemma_fx_mul_one(one);
    crate::fixed::lemma_fx_mul_one(v.x);
    crate::fixed::lemma_fx_mul_one(v.y);
    crate::fixed::lemma_fx_mul_one(v.z);
    crate::fixed::lemma_fx_mul_one(two);
    let b2 = v3_dot(b, b);
    assert(b2 == z);
    let s1 = v3_scale(v, fx_sub(fx_mul(q.w, q.w), b2));
    assert(fx_mul(q.w, q.w) == one);
    assert(fx_sub(one, z) == one);
    assert(s1 == v);
    let s2 = v3_scale(b, fx_mul(v3_dot(v, b), two));
    assert(v3_dot(v, b) == z);
    assert(s2 == v3_zero());
    let s3 = v3_scale(v3_cross(b, v), fx_mul(q.w, two));
    assert(v3_cross(b, v) == v3_zero());
    assert(fx_mul(q.w, two) == two);
    assert(s3 == v3_zero());
    assert(v3_add(v3_add(s1, s2), s3) == v);
}

impl Vec3 {
    pub fn new(x: Fx, y: Fx, z: Fx) -> (r: Vec3)
        ensures
            r == (Vec3 { x, y, z }),
    {
        Vec3 { x, y, z }
    }

    pub fn zero() -> (r: Vec3)
        ensures
            r == v3_zero(),
    {
        Vec3 { x: Fx::zero(), y: Fx::zero(), z: Fx::zero() }
    }

    pub fn add(self, o: Vec3) -> (r: Vec3)
        ensures
            r == v3_add(self, o),
    {
        Vec3 { x: self.x.add(o.x), y: self.y.add(o.y), z: self.z.add(o.z) }
    }

    pub fn sub(self, o: Vec3) -> (r: Vec3)
        ensures
            r == v3_sub(self, o),
    {
        Vec3 { x: self.x.sub(o.x), y: self.y.sub(o.y), z: self.z.sub(o.z) }
    }

    pub fn neg(self) -> (r: Vec3)
        ensures
            r == v3_neg(self),
    {
        Vec3 { x: self.x.neg(), y: self.y.neg(), z: self.z.neg() }
    }

    pub fn scale(self, s: Fx) -> (r: Vec3)
        ensures
            r == v3_scale(self, s),
    {
        Vec3 { x: self.x.mul(s), y: self.y.mul(s), z: self.z.mul(s) }
    }

    pub fn dot(self, o: Vec3) -> (r: Fx)
        ensures
            r == v3_dot(self, o),
    {
        self.x.mul(o.x).add(self.y.mul(o.y)).add(self.z.mul(o.z))
    }

    pub fn cross(self, o: Vec3) -> (r: Vec3)
        ensures
            r == v3_cross(self, o),
    {
        Vec3 {
            x: self.y.mul(o.z).sub(self.z.mul(o.y)),
            y: self.z.mul(o.x).sub(self.x.mul(o.z)),
            z: self.x.mul(o.y).sub(self.y.mul(o.x)),
        }
    }

    pub fn len_sq(self) -> (r: Fx)
        ensures
            r == v3_len_sq(self),
            r.raw >= 0,
    {
        proof {
            crate::fixed::lemma_fx_square_nonneg(self.x);
            crate::fixed::lemma_fx_square_nonneg(self.y);
            crate::fixed::lemma_fx_square_nonneg(self.z);
        }
        self.dot(self)
    }

    pub fn len(self) -> (r: Fx)
        ensures
            r == v3_len(self),
            r.raw >= 0,
    {
        self.len_sq().sqrt()
    }

    pub fn normalize(self) -> (r: Vec3)
        ensures
            r == v3_normalize(self),
    {
        let l = self.len();
        if l.raw == 0 {
            Vec3::zero()
        } else {
            Vec3 { x: self.x.div(l), y: self.y.div(l), z: self.z.div(l) }
        }
    }
}

impl Quat {
    pub fn identity() -> (r: Quat)
        ensures
            r == q_identity(),
    {
        Quat { x: Fx::zero(), y: Fx::zero(), z: Fx::zero(), w: Fx::one() }
    }

    /// The inverse of a unit rotation (the conjugate).
    pub fn inverse(self) -> (r: Quat)
        ensures
            r == q_conjugate(self),
    {
        Quat { x: self.x.neg(), y: self.y.neg(), z: self.z.neg(), w: self.w }
    }

    pub fn mul(self, o: Quat) -> (r: Quat)
        ensures
            r == q_mul(self, o),
    {
        Quat {
            x: self.w.mul(o.x).add(self.x.mul(o.w)).add(self.y.mul(o.z)).sub(self.z.mul(o.y)),
            y: self.w.mul(o.y).sub(self.x.mul(o.z)).add(self.y.mul(o.w)).add(self.z.mul(o.x)),
            z: self.w.mul(o.z).add(self.x.mul(o.y)).sub(self.y.mul(o.x)).add(self.z.mul(o.w)),
            w: self.w.mul(o.w).sub(self.x.mul(o.x)).sub(self.y.mul(o.y)).sub(self.z.mul(o.z)),
        }
    }

    pub fn rotate(self, v: Vec3) -> (r: Vec3)
        ensures
            r == q_rotate(self, v),
    {
        let b = Vec3 { x: self.x, y: self.y, z: self.z };
        let b2 = b.dot(b);
        let two = Fx::from_raw(131072);
        let s1 = v.scale(self.w.mul(self.w).sub(b2));
        let s2 = b.scale(v.dot(b).mul(two));
        let s3 = b.cross(v).scale(self.w.mul(two));
        s1.add(s2).add(s3)
    }

    pub fn from_euler_xyz(x: Fx, y: Fx, z: Fx) -> (r: Quat)
        ensures
            r == q_from_euler_xyz(x, y, z),
    {
        let ti = x.div_by(2);
        let tj = y.neg().div_by(2);
        let th = z.div_by(2);
        let si = sin(ti);
        let ci = cos(ti);
        let sj = sin(tj);
        let cj = cos(tj);
        let sh = sin(th);
        let ch = cos(th);
        let cc = ci.mul(ch);
        let cs = ci.mul(sh);
        let sc = si.mul(ch);
        let ss = si.mul(sh);
        Quat {
            x: cj.mul(sc).sub(sj.mul(cs)),
            y: cj.mul(ss).add(sj.mul(cc)).neg(),
            z: cj.mul(cs).sub(sj.mul(sc)),
            w: cj.mul(cc).add(sj.mul(ss)),
        }
    }

    pub fn from_axis_angle(axis: Vec3, angle: Fx) -> (r: Quat)
        ensures
            r == q_from_axis_angle(axis, angle),
    {
        let half = angle.div_by(2);
        let s = sin(half);
        Quat { x: axis.x.mul(s), y: axis.y.mul(s), z: axis.z.mul(s), w: cos(half) }
    }

    pub fn axis_x(self) -> (r: Vec3)
        ensures
            r == q_axis_x(self),
    {
        let two = Fx::from_raw(131072);
        Vec3 {
            x: Fx::one().sub(two.mul(self.y.mul(self.y).add(self.z.mul(self.z)))),
            y: two.mul(self.x.mul(self.y).add(self.w.mul(self.z))),
            z: two.mul(self.x.mul(self.z).sub(self.w.mul(self.y))),
        }
    }

    pub fn axis_y(self) -> (r: Vec3)
        ensures
            r == q_axis_y(self),
    {
        let two = Fx::from_raw(131072);
        Vec3 {
            x: two.mul(self.x.mul(self.y).sub(self.w.mul(self.z))),
            y: Fx::one().sub(two.mul(self.x.mul(self.x).add(self.z.mul(self.z)))),
            z: two.mul(self.y.mul(self.z).add(self.w.mul(self.x))),
        }
    }

    pub fn axis_z(self) -> (r: Vec3)
        ensures
            r == q_axis_z(self),
    {
        let two = Fx::from_raw(131072);
        Vec3 {
            x: two.mul(self.x.mul(self.z).add(self.w.mul(self.y))),
            y: two.mul(self.y.mul(self.z).sub(self.w.mul(self.x))),
            z: Fx::one().sub(two.mul(self.x.mul(self.x).add(self.y.mul(self.y)))),
        }
    }

    /// The quaternion of an orthonormal rotation matrix given by its three
    /// columns; degenerate input yields the identity.
    pub fn from_rotation_axes(xa: Vec3, ya: Vec3, za: Vec3) -> (r: Quat)
        ensures
            r == q_from_rotation_axes(xa, ya, za),
    {
        let half = Fx::from_raw(32768);
        let one = Fx::one();
        if za.z.raw <= 0 {
            let dif10 = ya.y.sub(xa.x);
            let omm22 = one.sub(za.z);
            if dif10.raw <= 0 {
                let four_xsq = omm22.sub(dif10);
                if four_xsq.raw < 0 {
                    return Quat::identity();
                }
                let s = four_xsq.sqrt();
                if s.raw == 0 {
                    return Quat::identity();
                }
                let inv = half.div(s);
                Quat {
                    x: four_xsq.mul(inv),
                    y: xa.y.add(ya.x).mul(inv),
                    z: xa.z.add(za.x).mul(inv),
                    w: ya.z.sub(za.y).mul(inv),
                }
            } else {
                let four_ysq = omm22.add(dif10);
                if four_ysq.raw < 0 {
                    return Quat::identity();
                }
                let s = four_ysq.sqrt();
                if s.raw == 0 {
                    return Quat::identity();
                }
                let inv = half.div(s);
                Quat {
                    x: xa.y.add(ya.x).mul(inv),
                    y: four_ysq.mul(inv),
                    z: ya.z.add(za.y).mul(inv),
                    w: za.x.sub(xa.z).mul(inv),
                }
            }
        } else {
            let sum10 = ya.y.add(xa.x);
            let opm22 = one.add(za.z);
            if sum10.raw <= 0 {
                let four_zsq = opm22.sub(sum10);
                if four_zsq.raw < 0 {
                    return Quat::identity();
                }
                let s = four_zsq.sqrt();
                if s.raw == 0 {
                    return Quat::identity();
                }
                let inv = half.div(s);
                Quat {
                    x: xa.z.add(za.x).mul(inv),
                    y: ya.z.add(za.y).mul(inv),
                    z: four_zsq.mul(inv),
                    w: xa.y.sub(ya.x).mul(inv),
                }
            } else {
                let four_wsq = opm22.add(sum10);
                if four_wsq.raw < 0 {
                    return Quat::identity();
                }
                let s = four_wsq.sqrt();
                if s.raw == 0 {
                    return Quat::identity();
                }
                let inv = half.div(s);
                Quat {
                    x: ya.z.sub(za.y).mul(inv),
                    y: za.x.sub(xa.z).mul(inv),
                    z: xa.y.sub(ya.x).mul(inv),
                    w: four_wsq.mul(inv),
                }
            }
        }
    }

    /// The right-handed look-at rotation from an eye position toward a
    /// target, with an up hint.
    pub fn look_at_rh(eye: Vec3, center: Vec3, up: Vec3) -> (r: Quat)
        ensures
            r == q_look_at_rh(eye, center, up),
    {
        let f = center.sub(eye).normalize();
        let s = f.cross(up).normalize();
        let u = s.cross(f);
        Quat::from_rotation_axes(
            Vec3 { x: s.x, y: u.x, z: f.x.neg() },
            Vec3 { x: s.y, y: u.y, z: f.y.neg() },
            Vec3 { x: s.z, y: u.z, z: f.z.neg() },
        )
    }

    pub fn to_euler_xyz(self) -> (r: Vec3)
        ensures
            r == q_to_euler_xyz(self),
    {
        let xa = self.axis_x();
        let ya = self.axis_y();
        let za = self.axis_z();
        let s = xa.x.mul(xa.x).add(ya.x.mul(ya.x));
        proof {
            crate::fixed::lemma_fx_square_nonneg(xa.x);
            crate::fixed::lemma_fx_square_nonneg(ya.x);
        }
        let cy = s.sqrt();
        if cy.raw > 16 {
            Vec3 {
                x: atan2(za.y, za.z).neg(),
                y: atan2(za.x.neg(), cy).neg(),
                z: atan2(ya.x, xa.x).neg(),
            }
        } else {
            Vec3 {
                x: atan2(ya.z.neg(), ya.y).neg(),
                y: atan2(za.x.neg(), cy).neg(),
                z: Fx::zero(),
            }
        }
    }
}

impl Mat4 {
    pub fn identity() -> (r: Mat4)
        ensures
            r == m4_identity(),
    {
        Mat4 {
            x_axis: Vec3 { x: Fx::one(), y: Fx::zero(), z: Fx::zero() },
            y_axis: Vec3 { x: Fx::zero(), y: Fx::one(), z: Fx::zero() },
            z_axis: Vec3 { x: Fx::zero(), y: Fx::zero(), z: Fx::one() },
            w_axis: Vec3::zero(),
        }
    }

    pub fn from_quat_translation(q: Quat, t: Vec3) -> (r: Mat4)
        ensures
            r == m4_from_quat_translation(q, t),
    {
        Mat4 { x_axis: q.axis_x(), y_axis: q.axis_y(), z_axis: q.axis_z(), w_axis: t }
    }

    pub fn from_translation(t: Vec3) -> (r: Mat4)
        ensures
            r == m4_from_translation(t),
    {
        let mut m = Mat4::identity();
        m.w_axis = t;
        m
    }

    pub fn from_scale(s: Vec3) -> (r: Mat4)
        ensures
            r == m4_from_scale(s),
    {
        Mat4 {
            x_axis: Vec3 { x: s.x, y: Fx::zero(), z: Fx::zero() },
            y_axis: Vec3 { x: Fx::zero(), y: s.y, z: Fx::zero() },
            z_axis: Vec3 { x: Fx::zero(), y: Fx::zero(), z: s.z },
            w_axis: Vec3::zero(),
        }
    }

    /// The rotation transform about a unit axis.
    pub fn from_axis_angle(axis: Vec3, angle: Fx) -> (r: Mat4)
        ensures
            r == m4_from_quat_translation(q_from_axis_angle(axis, angle), v3_zero()),
    {
        Mat4::from_quat_translation(Quat::from_axis_angle(axis, angle), Vec3::zero())
    }

    pub fn transform_vec(&self, v: Vec3) -> (r: Vec3)
        ensures
            r == m4_transform_vec(*self, v),
    {
        self.x_axis.scale(v.x).add(self.y_axis.scale(v.y)).add(self.z_axis.scale(v.z))
    }

    pub fn transform_point(&self, v: Vec3) -> (r: Vec3)
        ensures
            r == m4_transform_point(*self, v),
    {
        self.transform_vec(v).add(self.w_axis)
    }

    /// The translation column: where this transform sends the origin.
    pub fn origin(&self) -> (r: Vec3)
        ensures
            r == self.w_axis,
    {
        self.w_axis
    }

    pub fn mul(&self, o: &Mat4) -> (r: Mat4)
        ensures
            r == m4_mul(*self, *o),
    {
        Mat4 {
            x_axis: self.transform_vec(o.x_axis),
            y_axis: self.transform_vec(o.y_axis),
            z_axis: self.transform_vec(o.z_axis),
            w_axis: self.transform_point(o.w_axis),
        }
    }

    pub fn rigid_inverse(&self) -> (r: Mat4)
        ensures
            r == m4_rigid_inverse(*self),
    {
        let tx = Vec3 { x: self.x_axis.x, y: self.y_axis.x, z: self.z_axis.x };
        let ty = Vec3 { x: self.x_axis.y, y: self.y_axis.y, z: self.z_axis.y };
        let tz = Vec3 { x: self.x_axis.z, y: self.y_axis.z, z: self.z_axis.z };
        let inv = Mat4 { x_axis: tx, y_axis: ty, z_axis: tz, w_axis: Vec3::zero() };
        let w = inv.transform_vec(self.w_axis).neg();
        Mat4 { x_axis: tx, y_axis: ty, z_axis: tz, w_axis: w }
    }
}

} // verus!
