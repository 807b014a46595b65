//! Fixed-point trigonometry.
//!
//! The renderer and the integrator need sine, cosine, tangent and the
//! two-argument arctangent for small rotation increments, field-of-view
//! handling and Euler-angle extraction. Each function computes a fixed,
//! named polynomial approximation; its contract states that polynomial
//! exactly, so the library's numeric behaviour is deterministic and fully
//! specified. The polynomials are accurate for arguments within about half a
//! turn, which covers every caller in this crate.

use vstd::prelude::*;

verus! {

use crate::fixed::{Fx, fx_add, fx_sub, fx_mul, fx_div, fx_divi, fx_abs};

/// One half turn (pi) in raw fixed-point units.
pub const FX_PI: i64 = 205887;

/// A quarter turn (pi/2) in raw fixed-point units.
pub const FX_HALF_PI: i64 = 102944;

/// An eighth turn (pi/4) in raw fixed-point units.
pub const FX_QUARTER_PI: i64 = 51472;

/// The degree-7 Taylor polynomial of sine, evaluated with the crate's
/// fixed-point operations.
pub open spec fn fx_sin(x: Fx) -> Fx {
    let x2 = fx_mul(x, x);
    let x3 = fx_mul(x2, x);
    let x5 = fx_mul(x3, x2);
    let x7 = fx_mul(x5, x2);
    fx_sub(fx_add(fx_sub(x, fx_divi(x3, 6)), fx_divi(x5, 120)), fx_divi(x7, 5040))
}

/// The degree-6 Taylor polynomial of cosine, evaluated with the crate's
/// fixed-point operations.
pub open spec fn fx_cos(x: Fx) -> Fx {
    let x2 = fx_mul(x, x);
    let x4 = fx_mul(x2, x2);
    let x6 = fx_mul(x4, x2);
    fx_sub(fx_add(fx_sub(Fx { raw: 65536 }, fx_divi(x2, 2)), fx_divi(x4, 24)), fx_divi(x6, 720))
}

/// The quotient of the sine and cosine polynomials; saturated where the
/// cosine polynomial vanishes.
pub open spec fn fx_tan(x: Fx) -> Fx {
    let c = fx_cos(x);
    if c.raw == 0 {
        Fx { raw: i64::MAX }
    } else {
        fx_div(fx_sin(x), c)
    }
}

/// A quadratic arctangent approximation for arguments in `[-1, 1]`:
/// `atan(t) ~= (pi/4) t + t (1 - |t|) (0.2447 + 0.0663 |t|)`.
pub open spec fn fx_atan_unit(t: Fx) -> Fx {
    let a = fx_abs(t);
    let lin = fx_mul(Fx { raw: FX_QUARTER_PI }, t);
    let corr = fx_add(Fx { raw: 16037 }, fx_mul(Fx { raw: 4345 }, a));
    fx_add(lin, fx_mul(fx_mul(t, fx_sub(Fx { raw: 65536 }, a)), corr))
}

/// The two-argument arctangent, reduced to `fx_atan_unit` on the octant with
/// `|quotient| <= 1`; zero when both arguments are zero.
pub open spec fn fx_atan2(y: Fx, x: Fx) -> Fx {
    if x.raw == 0 && y.raw == 0 {
        Fx { raw: 0 }
    } else if fx_abs(x).raw >= fx_abs(y).raw {
        let b = fx_atan_unit(fx_div(y, x));
        if x.raw > 0 {
            b
        } else if y.raw >= 0 {
            fx_add(b, Fx { raw: FX_PI })
        } else {
            fx_sub(b, Fx { raw: FX_PI })
        }
    } else {
        let b = fx_atan_unit(fx_div(x, y));
        if y.raw > 0 {
            fx_sub(Fx { raw: FX_HALF_PI }, b)
        } else {
            fx_sub(Fx { raw: (-FX_HALF_PI) as i64 }, b)
        }
    }
}

/// Sine; computes exactly the polynomial named by [`fx_sin`].
pub fn sin(x: Fx) -> (r: Fx)
    ensures
        r == fx_sin(x),
{
    let x2 = x.mul(x);
    let x3 = x2.mul(x);
    let x5 = x3.mul(x2);
    let x7 = x5.mul(x2);
    x.sub(x3.div_by(6)).add(x5.div_by(120)).sub(x7.div_by(5040))
}

/// Cosine; computes exactly the polynomial named by [`fx_cos`].
pub fn cos(x: Fx) -> (r: Fx)
    ensures
        r == fx_cos(x),
{
    let x2 = x.mul(x);
    let x4 = x2.mul(x2);
    let x6 = x4.mul(x2);
    Fx::one().sub(x2.div_by(2)).add(x4.div_by(24)).sub(x6.div_by(720))
}

/// Tangent; computes exactly the quotient named by [`fx_tan`].
pub fn tan(x: Fx) -> (r: Fx)
    ensures
        r == fx_tan(x),
{
    let c = cos(x);
    if c.raw == 0 {
        Fx { raw: i64::MAX }
    } else {
        sin(x).div(c)
    }
}

/// Arctangent for arguments in `[-1, 1]`; computes exactly the polynomial
/// named by [`fx_atan_unit`].
pub fn atan_unit(t: Fx) -> (r: Fx)
    ensures
        r == fx_atan_unit(t),
{
    let a = t.abs();
    let lin = Fx::from_raw(FX_QUARTER_PI).mul(t);
    let corr = Fx::from_raw(16037).add(Fx::from_raw(4345).mul(a));
    lin.add(t.mul(Fx::one().sub(a)).mul(corr))
}

/// Two-argument arctangent; computes exactly the case split named by
/// [`fx_atan2`].
pub fn atan2(y: Fx, x: Fx) -> (r: Fx)
    ensures
        r == fx_atan2(y, x),
{
    if x.raw == 0 && y.raw == 0 {
        Fx::zero()
    } else if x.abs().raw >= y.abs().raw {
        let b = atan_unit(y.div(x));
        if x.raw > 0 {
            b
        } else if y.raw >= 0 {
            b.add(Fx::from_raw(FX_PI))
        } else {
            b.sub(Fx::from_raw(FX_PI))
        }
    } else {
        let b = atan_unit(x.div(y));
        if y.raw > 0 {
            Fx::from_raw(FX_HALF_PI).sub(b)
        } else {
            Fx::from_raw(-FX_HALF_PI).sub(b)
        }
    }
}

} // verus!
