//! Signed fixed-point scalars.
//!
//! An [`Fx`] carries a real number as a signed 64-bit count of 1/65536 units
//! (16 fractional bits). Addition, subtraction, multiplication and negation
//! saturate at the representable range; multiplication and division truncate
//! the fractional residue toward zero, as Rust's integer `/` does. Every
//! operation is total over its stated domain and has an exact contract.

use vstd::prelude::*;

verus! {

use vstd::math::abs;

/// Number of raw units per 1.0: fixed-point values carry 16 fractional bits.
pub const FX_SCALE: i64 = 65536;

/// A fixed-point real number; `raw` counts 1/65536 units.
#[derive(Clone, Copy, PartialEq, Eq, Structural, Debug)]
pub struct Fx {
    pub raw: i64,
}

/// Clamp a mathematical integer into the `i64` range.
pub open spec fn sat64(x: int) -> int {
    if x > i64::MAX {
        i64::MAX as int
    } else if x < i64::MIN {
        i64::MIN as int
    } else {
        x
    }
}

/// Truncating (round-toward-zero) division, the behaviour of `/` on machine
/// integers in Rust.
pub open spec fn tdiv(n: int, d: int) -> int
    recommends
        d != 0,
{
    if (n < 0) == (d < 0) {
        abs(n) as int / abs(d) as int
    } else {
        -(abs(n) as int / abs(d) as int)
    }
}

/// The fixed-point value with the given (clamped) raw count.
pub open spec fn fx(raw: int) -> Fx {
    Fx { raw: sat64(raw) as i64 }
}

pub open spec fn fx_add(a: Fx, b: Fx) -> Fx {
    fx(a.raw + b.raw)
}

pub open spec fn fx_sub(a: Fx, b: Fx) -> Fx {
    fx(a.raw - b.raw)
}

pub open spec fn fx_neg(a: Fx) -> Fx {
    fx(-a.raw)
}

pub open spec fn fx_mul(a: Fx, b: Fx) -> Fx {
    fx(tdiv(a.raw * b.raw, FX_SCALE as int))
}

pub open spec fn fx_div(a: Fx, b: Fx) -> Fx
    recommends
        b.raw != 0,
{
    fx(tdiv(a.raw * FX_SCALE, b.raw as int))
}

pub open spec fn fx_min(a: Fx, b: Fx) -> Fx {
    if a.raw <= b.raw {
        a
    } else {
        b
    }
}

pub open spec fn fx_max(a: Fx, b: Fx) -> Fx {
    if a.raw >= b.raw {
        a
    } else {
        b
    }
}

/// Clamp `a` into `[lo, hi]`.
pub open spec fn fx_clamp(a: Fx, lo: Fx, hi: Fx) -> Fx
    recommends
        lo.raw <= hi.raw,
{
    if a.raw < lo.raw {
        lo
    } else if a.raw > hi.raw {
        hi
    } else {
        a
    }
}

pub open spec fn fx_abs(a: Fx) -> Fx {
    fx(abs(a.raw as int) as int)
}

/// Division by an integer, truncating toward zero.
pub open spec fn fx_divi(a: Fx, d: int) -> Fx
    recommends
        d != 0,
{
    fx(tdiv(a.raw as int, d))
}

/// Whether `r` is the floor of the real square root of `x`.
pub open spec fn is_isqrt(x: int, r: int) -> bool {
    0 <= r && r * r <= x && x < (r + 1) * (r + 1)
}

/// The floor of the real square root of a nonnegative integer.
pub open spec fn isqrt(x: int) -> int
    recommends
        x >= 0,
{
    choose|r: int| is_isqrt(x, r)
}

/// Every nonnegative integer has a floor square root, and `isqrt` denotes it.
pub proof fn lemma_isqrt_exists(x: int)
    requires
        x >= 0,
    ensures
        is_isqrt(x, isqrt(x)),
    decreases x,
{
    if x == 0 {
        assert(is_isqrt(0, 0));
    } else {
        lemma_isqrt_exists(x - 1);
        let r = isqrt(x - 1);
        if (r + 1) * (r + 1) <= x {
            assert(is_isqrt(x, r + 1)) by (nonlinear_arith)
                requires
                    is_isqrt(x - 1, r),
                    (r + 1) * (r + 1) <= x,
            ;
        } else {
            assert(is_isqrt(x, r));
        }
    }
    assert(exists|r: int| is_isqrt(x, r));
}

/// The floor square root is unique.
pub proof fn lemma_isqrt_unique(x: int, r: int)
    requires
        x >= 0,
        is_isqrt(x, r),
    ensures
        r == isqrt(x),
{
    lemma_isqrt_exists(x);
    let s = isqrt(x);
    assert(r == s) by (nonlinear_arith)
        requires
            is_isqrt(x, r),
            is_isqrt(x, s),
    ;
}

/// The fixed-point square root: the floor square root of the raw count
/// rescaled so the result again carries 16 fractional bits.
pub open spec fn fx_sqrt(a: Fx) -> Fx
    recommends
        a.raw >= 0,
{
    Fx { raw: isqrt(a.raw * FX_SCALE) as i64 }
}

/// Floor square root of a `u128` below 2^80, by bisection.
fn isqrt_u128(x: u128) -> (r: u128)
    requires
        x < 0x1_0000_0000_0000_0000_0000,
    ensures
        is_isqrt(x as int, r as int),
{
    let mut lo: u128 = 0;
    let mut hi: u128 = 0x1_0000_0000_0000;
    assert(hi * hi > x) by (nonlinear_arith)
        requires
            hi == 0x1_0000_0000_0000,
            x < 0x1_0000_0000_0000_0000_0000,
    ;
    while lo + 1 < hi
        invariant
            lo < hi,
            hi <= 0x1_0000_0000_0000,
            lo * lo <= x,
            x < hi * hi,
        decreases hi - lo,
    {
        let mid: u128 = lo + (hi - lo) / 2;
        assert(mid * mid <= 0x1_0000_0000_0000_0000_0000_0000) by (nonlinear_arith)
            requires
                mid <= 0x1_0000_0000_0000,
        ;
        if mid * mid <= x {
            lo = mid;
        } else {
            hi = mid;
        }
    }
    lo
}

/// Clamp an `i128` into the `i64` range.
fn clamp_to_i64(x: i128) -> (r: i64)
    ensures
        r == sat64(x as int),
{
    if x > i64::MAX as i128 {
        i64::MAX
    } else if x < i64::MIN as i128 {
        i64::MIN
    } else {
        x as i64
    }
}

/// Truncating division of an `i128` by a positive divisor, computed through
/// unsigned magnitudes so the rounding direction is explicit.
pub(crate) fn tdiv_i128(n: i128, d: i128) -> (r: i128)
    requires
        d > 0,
        -0x4000_0000_0000_0000_0000_0000_0000_0000 <= n <= 0x4000_0000_0000_0000_0000_0000_0000_0000,
    ensures
        r == tdiv(n as int, d as int),
{
    if n >= 0 {
        let q: u128 = (n as u128) / (d as u128);
        q as i128
    } else {
        let q: u128 = ((-n) as u128) / (d as u128);
        -(q as i128)
    }
}

/// The product of two `i64`-range integers stays well inside the `i128`
/// range.
proof fn lemma_i64_product_bounds(a: int, b: int)
    requires
        -0x8000_0000_0000_0000 <= a <= 0x7fff_ffff_ffff_ffff,
        -0x8000_0000_0000_0000 <= b <= 0x7fff_ffff_ffff_ffff,
    ensures
        -0x4000_0000_0000_0000_0000_0000_0000_0000 <= a * b,
        a * b <= 0x4000_0000_0000_0000_0000_0000_0000_0000,
{
    assert(-0x4000_0000_0000_0000_0000_0000_0000_0000 <= a * b
        && a * b <= 0x4000_0000_0000_0000_0000_0000_0000_0000) by (nonlinear_arith)
        requires
            -0x8000_0000_0000_0000 <= a <= 0x7fff_ffff_ffff_ffff,
            -0x8000_0000_0000_0000 <= b <= 0x7fff_ffff_ffff_ffff,
    ;
}

/// Multiplying by 1.0 is exact: the scale factor divides back out without
/// loss.
pub proof fn lemma_fx_mul_one(a: Fx)
    ensures
        fx_mul(a, Fx { raw: FX_SCALE }) == a,
        fx_mul(Fx { raw: FX_SCALE }, a) == a,
{
    let s = FX_SCALE as int;
    let p = a.raw * s;
    let m = abs(a.raw as int) as int;
    assert(abs(p) == m * s && (a.raw >= 0 ==> p >= 0) && (a.raw < 0 ==> p < 0)) by (
    nonlinear_arith)
        requires
            p == a.raw * s,
            m == abs(a.raw as int),
            s == FX_SCALE as int,
    ;
    vstd::arithmetic::div_mod::lemma_div_multiples_vanish(m, s);
    assert(s * m == m * s) by (nonlinear_arith);
    assert(abs(p) as int / s == m);
    assert(tdiv(p, s) == a.raw);
    assert(s * a.raw == a.raw * s) by (nonlinear_arith);
}

/// A fixed-point square is never negative.
pub proof fn lemma_fx_square_nonneg(a: Fx)
    ensures
        fx_mul(a, a).raw >= 0,
{
    assert(a.raw * a.raw >= 0) by (nonlinear_arith);
}

/// Truncating division by a positive divisor is monotone in the numerator.
pub proof fn lemma_tdiv_le(n1: int, n2: int, d: int)
    requires
        n1 <= n2,
        d > 0,
    ensures
        tdiv(n1, d) <= tdiv(n2, d),
{
    if n1 >= 0 {
        vstd::arithmetic::div_mod::lemma_div_is_ordered(n1, n2, d);
    } else if n2 < 0 {
        vstd::arithmetic::div_mod::lemma_div_is_ordered(-n2, -n1, d);
    } else {
        vstd::arithmetic::div_mod::lemma_div_pos_is_pos(n2, d);
        vstd::arithmetic::div_mod::lemma_div_pos_is_pos(-n1, d);
    }
}

/// Pin a truncating division down by exhibiting its quotient and
/// remainder.
pub proof fn lemma_tdiv_concrete(n: int, d: int, q: int, r: int)
    requires
        d > 0,
        q >= 0,
        0 <= r < d,
        abs(n) == q * d + r,
    ensures
        tdiv(n, d) == if n >= 0 {
            q
        } else {
            -q
        },
{
    vstd::arithmetic::div_mod::lemma_fundamental_div_mod_converse(abs(n) as int, d, q, r);
}

/// Multiplying by -1.0 is exact negation.
pub proof fn lemma_fx_mul_minus_one(a: Fx)
    requires
        a.raw > i64::MIN,
    ensures
        fx_mul(Fx { raw: (-FX_SCALE) as i64 }, a) == fx_neg(a),
        fx_mul(a, Fx { raw: (-FX_SCALE) as i64 }) == fx_neg(a),
{
    let s = FX_SCALE as int;
    let p = (-s) * a.raw;
    let m = abs(a.raw as int) as int;
    assert(p == a.raw * (-s) && abs(p) == m * s && (a.raw > 0 ==> p < 0) && (a.raw < 0 ==> p > 0))
        by (nonlinear_arith)
        requires
            p == (-s) * a.raw,
            m == abs(a.raw as int),
            s == FX_SCALE as int,
    ;
    vstd::arithmetic::div_mod::lemma_div_multiples_vanish(m, s);
    assert(s * m == m * s) by (nonlinear_arith);
    assert(abs(p) as int / s == m);
    assert(tdiv(p, s) == -(a.raw as int));
}

/// Floor division respects cross-multiplied ordering of nonnegative
/// fractions.
proof fn lemma_floor_div_cross(a: int, b: int, c: int, e: int)
    requires
        a >= 0,
        c >= 0,
        b > 0,
        e > 0,
        a * e <= c * b,
    ensures
        a / b <= c / e,
{
    let q = a / b;
    vstd::arithmetic::div_mod::lemma_fundamental_div_mod(a, b);
    vstd::arithmetic::div_mod::lemma_div_pos_is_pos(a, b);
    assert(a >= q * b) by (nonlinear_arith)
        requires
            a == b * q + a % b,
            a % b >= 0,
    ;
    assert(c * b >= q * b * e) by (nonlinear_arith)
        requires
            a * e <= c * b,
            a >= q * b,
            e > 0,
            q >= 0,
    ;
    assert(c >= q * e) by (nonlinear_arith)
        requires
            c * b >= q * b * e,
            b > 0,
    ;
    vstd::arithmetic::div_mod::lemma_div_is_ordered(q * e, c, e);
    vstd::arithmetic::div_mod::lemma_div_multiples_vanish(q, e);
    assert(e * q == q * e) by (nonlinear_arith);
}

/// Truncating division respects cross-multiplied ordering of fractions
/// with positive denominators: if `n1/d1 <= n2/d2` as rationals, the
/// truncated quotients are ordered the same way.
pub proof fn lemma_tdiv_cross(n1: int, d1: int, n2: int, d2: int)
    requires
        d1 > 0,
        d2 > 0,
        n1 * d2 <= n2 * d1,
    ensures
        tdiv(n1, d1) <= tdiv(n2, d2),
{
    if n1 >= 0 {
        assert(n2 * d1 >= 0) by (nonlinear_arith)
            requires
                n1 * d2 <= n2 * d1,
                n1 >= 0,
                d2 > 0,
        ;
        assert(n2 >= 0) by (nonlinear_arith)
            requires
                n2 * d1 >= 0,
                d1 > 0,
        ;
        lemma_floor_div_cross(n1, d1, n2, d2);
    } else if n2 >= 0 {
        vstd::arithmetic::div_mod::lemma_div_pos_is_pos(-n1, d1);
        vstd::arithmetic::div_mod::lemma_div_pos_is_pos(n2, d2);
    } else {
        assert((-n2) * d1 <= (-n1) * d2) by (nonlinear_arith)
            requires
                n1 * d2 <= n2 * d1,
        ;
        lemma_floor_div_cross(-n2, d2, -n1, d1);
    }
}

/// Multiplication by a nonnegative factor is monotone.
pub proof fn lemma_fx_mul_monotone(c: Fx, a: Fx, b: Fx)
    requires
        c.raw >= 0,
        a.raw <= b.raw,
    ensures
        fx_mul(c, a).raw <= fx_mul(c, b).raw,
{
    assert(c.raw * a.raw <= c.raw * b.raw) by (nonlinear_arith)
        requires
            c.raw >= 0,
            a.raw <= b.raw,
    ;
    lemma_tdiv_le(c.raw * a.raw, c.raw * b.raw, FX_SCALE as int);
}

/// A raw count bounded by `m` whole units truncates to at most `m`.
pub proof fn lemma_tdiv_scale_bound(raw: int, m: int)
    requires
        m >= 0,
        -(m * FX_SCALE) <= raw <= m * FX_SCALE,
    ensures
        -m <= tdiv(raw, FX_SCALE as int) <= m,
{
    let s = FX_SCALE as int;
    vstd::arithmetic::div_mod::lemma_div_multiples_vanish(m, s);
    assert(s * m == m * s) by (nonlinear_arith);
    if raw >= 0 {
        vstd::arithmetic::div_mod::lemma_div_is_ordered(raw, m * s, s);
        vstd::arithmetic::div_mod::lemma_div_pos_is_pos(raw, s);
    } else {
        vstd::arithmetic::div_mod::lemma_div_is_ordered(-raw, m * s, s);
        vstd::arithmetic::div_mod::lemma_div_pos_is_pos(-raw, s);
    }
}

/// Multiplying by 0.0 gives exactly zero.
pub proof fn lemma_fx_mul_zero(a: Fx)
    ensures
        fx_mul(a, Fx { raw: 0 }) == (Fx { raw: 0 }),
        fx_mul(Fx { raw: 0 }, a) == (Fx { raw: 0 }),
{
    assert(a.raw * 0 == 0) by (nonlinear_arith);
    assert(0 * a.raw == 0) by (nonlinear_arith);
}

/// The product of nonnegative values is nonnegative.
pub proof fn lemma_fx_mul_nonneg(a: Fx, b: Fx)
    requires
        a.raw >= 0,
        b.raw >= 0,
    ensures
        fx_mul(a, b).raw >= 0,
{
    assert(a.raw * b.raw >= 0) by (nonlinear_arith)
        requires
            a.raw >= 0 && b.raw >= 0,
    ;
}

/// Negating numerator and divisor together leaves a truncating quotient
/// unchanged.
proof fn lemma_tdiv_neg_divisor(n: int, d: int)
    requires
        d != 0,
    ensures
        tdiv(n, d) == tdiv(-n, -d),
{
    assert(abs(-n) == abs(n));
    assert(abs(-d) == abs(d));
}

impl Fx {
    /// The value 0.
    pub fn zero() -> (r: Fx)
        ensures
            r.raw == 0,
    {
        Fx { raw: 0 }
    }

    /// The value 1.
    pub fn one() -> (r: Fx)
        ensures
            r.raw == FX_SCALE,
    {
        Fx { raw: FX_SCALE }
    }

    /// The fixed-point value of a small integer.
    pub fn from_i32(i: i32) -> (r: Fx)
        ensures
            r.raw == i * FX_SCALE,
    {
        Fx { raw: (i as i64) * FX_SCALE }
    }

    /// The fixed-point value with exactly the given raw count of 1/65536
    /// units.
    pub fn from_raw(raw: i64) -> (r: Fx)
        ensures
            r.raw == raw,
    {
        Fx { raw }
    }

    /// The integer part, truncated toward zero (the rounding of an `as` cast
    /// to an integer type).
    pub fn trunc(self) -> (r: i64)
        ensures
            r == tdiv(self.raw as int, FX_SCALE as int),
            -0x8000_0000_0000 <= r <= 0x7fff_ffff_ffff,
    {
        if self.raw >= 0 {
            let q: u64 = (self.raw as u64) / (FX_SCALE as u64);
            proof {
                vstd::arithmetic::div_mod::lemma_div_is_ordered(
                    self.raw as int,
                    0x7fff_ffff_ffff_ffff,
                    FX_SCALE as int,
                );
            }
            q as i64
        } else if self.raw == i64::MIN {
            // |i64::MIN| overflows i64; divide its magnitude as u64.
            let q: u64 = 0x8000_0000_0000_0000u64 / (FX_SCALE as u64);
            -(q as i64)
        } else {
            let q: u64 = ((-self.raw) as u64) / (FX_SCALE as u64);
            proof {
                vstd::arithmetic::div_mod::lemma_div_is_ordered(
                    -(self.raw as int),
                    0x8000_0000_0000_0000,
                    FX_SCALE as int,
                );
            }
            -(q as i64)
        }
    }

    pub fn add(self, o: Fx) -> (r: Fx)
        ensures
            r == fx_add(self, o),
    {
        let s: i128 = self.raw as i128 + o.raw as i128;
        Fx { raw: clamp_to_i64(s) }
    }

    pub fn sub(self, o: Fx) -> (r: Fx)
        ensures
            r == fx_sub(self, o),
    {
        let s: i128 = self.raw as i128 - o.raw as i128;
        Fx { raw: clamp_to_i64(s) }
    }

    pub fn neg(self) -> (r: Fx)
        ensures
            r == fx_neg(self),
    {
        let s: i128 = -(self.raw as i128);
        Fx { raw: clamp_to_i64(s) }
    }

    pub fn mul(self, o: Fx) -> (r: Fx)
        ensures
            r == fx_mul(self, o),
    {
        proof {
            lemma_i64_product_bounds(self.raw as int, o.raw as int);
        }
        let p: i128 = (self.raw as i128) * (o.raw as i128);
        let q: i128 = tdiv_i128(p, FX_SCALE as i128);
        Fx { raw: clamp_to_i64(q) }
    }

    pub fn div(self, o: Fx) -> (r: Fx)
        requires
            o.raw != 0,
        ensures
            r == fx_div(self, o),
    {
        proof {
            lemma_i64_product_bounds(self.raw as int, FX_SCALE as int);
        }
        let n: i128 = (self.raw as i128) * (FX_SCALE as i128);
        let q: i128 = if o.raw > 0 {
            tdiv_i128(n, o.raw as i128)
        } else if o.raw == i64::MIN {
            let q0 = tdiv_i128(-n, 0x8000_0000_0000_0000i128);
            proof {
                lemma_tdiv_neg_divisor(n as int, o.raw as int);
            }
            q0
        } else {
            let q0 = tdiv_i128(-n, (-o.raw) as i128);
            proof {
                lemma_tdiv_neg_divisor(n as int, o.raw as int);
            }
            q0
        };
        Fx { raw: clamp_to_i64(q) }
    }

    pub fn min(self, o: Fx) -> (r: Fx)
        ensures
            r == fx_min(self, o),
    {
        if self.raw <= o.raw {
            self
        } else {
            o
        }
    }

    pub fn max(self, o: Fx) -> (r: Fx)
        ensures
            r == fx_max(self, o),
    {
        if self.raw >= o.raw {
            self
        } else {
            o
        }
    }

    pub fn clamp(self, lo: Fx, hi: Fx) -> (r: Fx)
        requires
            lo.raw <= hi.raw,
        ensures
            r == fx_clamp(self, lo, hi),
    {
        if self.raw < lo.raw {
            lo
        } else if self.raw > hi.raw {
            hi
        } else {
            self
        }
    }

    pub fn abs(self) -> (r: Fx)
        ensures
            r == fx_abs(self),
    {
        if self.raw >= 0 {
            self
        } else {
            self.neg()
        }
    }

    /// Division by a positive integer, truncating toward zero.
    pub fn div_by(self, d: i64) -> (r: Fx)
        requires
            d > 0,
        ensures
            r == fx_divi(self, d as int),
    {
        let q: i128 = tdiv_i128(self.raw as i128, d as i128);
        Fx { raw: clamp_to_i64(q) }
    }

    /// The fixed-point square root of a nonnegative value.
    pub fn sqrt(self) -> (r: Fx)
        requires
            self.raw >= 0,
        ensures
            r == fx_sqrt(self),
            r.raw >= 0,
    {
        let x: u128 = (self.raw as u128) * (FX_SCALE as u128);
        assert(x == self.raw * FX_SCALE && x < 0x1_0000_0000_0000_0000_0000) by (nonlinear_arith)
            requires
                x == (self.raw as u128) * (FX_SCALE as u128),
                0 <= self.raw <= 0x7fff_ffff_ffff_ffff,
                x == (self.raw as int) * (FX_SCALE as int),
        ;
        let rt = isqrt_u128(x);
        proof {
            lemma_isqrt_unique(x as int, rt as int);
            assert(rt < 0x1_0000_0000_0000) by (nonlinear_arith)
                requires
                    rt * rt <= x,
                    x < 0x1_0000_0000_0000_0000_0000,
                    rt >= 0,
            ;
        }
        Fx { raw: rt as i64 }
    }

    /// Whether `self < o`, as real numbers.
    pub fn lt(self, o: Fx) -> (r: bool)
        ensures
            r == (self.raw < o.raw),
    {
        self.raw < o.raw
    }

    /// Whether `self <= o`, as real numbers.
    pub fn le(self, o: Fx) -> (r: bool)
        ensures
            r == (self.raw <= o.raw),
    {
        self.raw <= o.raw
    }
}

} // verus!
