//! Rasterizer primitives.
//!
//! All drawing lands in a row-major RGBA frame buffer of `WIDTH * HEIGHT * 4`
//! bytes and a parallel depth buffer of one fixed-point depth per pixel, both
//! indexed bottom-up: row 0 of the buffers is the bottom visual row, so the
//! y coordinate is flipped when the linear index is computed. Every
//! primitive reduces to one spec function, [`spec_put`]: an in-bounds,
//! depth-passing write of a color and its depth. The depth test is `<=`, so
//! later coplanar fragments win; that tie-break lets a polygon's outline be
//! drawn over its fill in a single pass. Out-of-bounds writes are silently
//! dropped.

use vstd::prelude::*;

verus! {

use vstd::math::abs;
use crate::fixed::{Fx, fx, fx_add, fx_sub, fx_mul, fx_div, fx_max, tdiv, FX_SCALE};
use crate::math::Vec3;
use crate::transform::{spec_out_of_bounds, out_of_bounds, FAR_RAW, Camera, spec_world_to_screen, transform_world_to_screen};
use crate::{WIDTH, HEIGHT};

/// The buffers a rasterizer call works on: a frame byte per channel and a
/// depth entry per pixel.
pub open spec fn buffers_ok(fb: Seq<u8>, db: Seq<Fx>) -> bool {
    fb.len() == WIDTH * HEIGHT * 4 && db.len() == WIDTH * HEIGHT
}

/// The depth-buffer index of the pixel at `(x, y)`: the y axis is flipped so
/// that row 0 of the buffer is the bottom visual row.
pub open spec fn pix_at(x: int, y: int) -> int {
    (HEIGHT - 1 - y) * WIDTH + x
}

/// One byte of a packed RGBA color: channel 0 is red (the most significant
/// byte), channel 3 is alpha.
pub open spec fn color_byte(color: u32, channel: int) -> u8 {
    if channel == 0 {
        (color >> 24) as u8
    } else if channel == 1 {
        (color >> 16) as u8
    } else if channel == 2 {
        (color >> 8) as u8
    } else {
        color as u8
    }
}

/// The effect of one depth-tested pixel store: out-of-bounds points are
/// dropped; otherwise, if the point's depth passes the `<=` test against
/// the stored depth, the four color bytes and the depth entry are replaced.
pub open spec fn spec_put(fb: Seq<u8>, db: Seq<Fx>, p: Vec3, color: u32) -> (Seq<u8>, Seq<Fx>) {
    if spec_out_of_bounds(p, 0) {
        (fb, db)
    } else {
        let x = tdiv(p.x.raw as int, FX_SCALE as int);
        let y = tdiv(p.y.raw as int, FX_SCALE as int);
        let di = pix_at(x, y);
        if p.z.raw <= db[di].raw {
            (
                fb.update(4 * di, color_byte(color, 0)).update(4 * di + 1, color_byte(color, 1))
                    .update(4 * di + 2, color_byte(color, 2)).update(4 * di + 3, color_byte(color, 3)),
                db.update(di, p.z),
            )
        } else {
            (fb, db)
        }
    }
}

/// The effect of a sequence of pixel stores, first element first.
pub open spec fn spec_put_list(fb: Seq<u8>, db: Seq<Fx>, items: Seq<(Vec3, u32)>) -> (
    Seq<u8>,
    Seq<Fx>,
)
    decreases items.len(),
{
    if items.len() == 0 {
        (fb, db)
    } else {
        let prev = spec_put_list(fb, db, items.drop_last());
        spec_put(prev.0, prev.1, items.last().0, items.last().1)
    }
}

/// A pixel store keeps the buffer dimensions.
pub proof fn lemma_put_keeps_len(fb: Seq<u8>, db: Seq<Fx>, p: Vec3, color: u32)
    requires
        buffers_ok(fb, db),
    ensures
        spec_put(fb, db, p, color).0.len() == fb.len(),
        spec_put(fb, db, p, color).1.len() == db.len(),
        buffers_ok(spec_put(fb, db, p, color).0, spec_put(fb, db, p, color).1),
{
    if !spec_out_of_bounds(p, 0) {
        let x = tdiv(p.x.raw as int, FX_SCALE as int);
        let y = tdiv(p.y.raw as int, FX_SCALE as int);
        let di = pix_at(x, y);
        if p.z.raw <= db[di].raw {
            assert(db.update(di, p.z).len() == db.len());
            let f1 = fb.update(4 * di, color_byte(color, 0));
            let f2 = f1.update(4 * di + 1, color_byte(color, 1));
            let f3 = f2.update(4 * di + 2, color_byte(color, 2));
            let f4 = f3.update(4 * di + 3, color_byte(color, 3));
            assert(f4.len() == fb.len());
            assert(spec_put(fb, db, p, color).1 == db.update(di, p.z));
            assert(spec_put(fb, db, p, color).0 == f4);
        }
    }
}

/// A sequence of pixel stores keeps the buffer dimensions.
pub proof fn lemma_put_list_keeps_len(fb: Seq<u8>, db: Seq<Fx>, items: Seq<(Vec3, u32)>)
    requires
        buffers_ok(fb, db),
    ensures
        spec_put_list(fb, db, items).0.len() == fb.len(),
        spec_put_list(fb, db, items).1.len() == db.len(),
        buffers_ok(spec_put_list(fb, db, items).0, spec_put_list(fb, db, items).1),
    decreases items.len(),
{
    if items.len() > 0 {
        lemma_put_list_keeps_len(fb, db, items.drop_last());
        let prev = spec_put_list(fb, db, items.drop_last());
        lemma_put_keeps_len(prev.0, prev.1, items.last().0, items.last().1);
    }
}

/// Pixel stores compose: drawing `l1` then `l2` is drawing `l1 + l2`.
pub proof fn lemma_put_list_append(fb: Seq<u8>, db: Seq<Fx>, l1: Seq<(Vec3, u32)>, l2: Seq<
    (Vec3, u32),
>)
    ensures
        spec_put_list(fb, db, l1 + l2) == spec_put_list(
            spec_put_list(fb, db, l1).0,
            spec_put_list(fb, db, l1).1,
            l2,
        ),
    decreases l2.len(),
{
    if l2.len() == 0 {
        assert(l1 + l2 == l1);
    } else {
        lemma_put_list_append(fb, db, l1, l2.drop_last());
        assert((l1 + l2).drop_last() == l1 + l2.drop_last());
        assert((l1 + l2).last() == l2.last());
    }
}

/// Extending a store list by one element appends one store.
pub proof fn lemma_put_list_snoc(fb: Seq<u8>, db: Seq<Fx>, items: Seq<(Vec3, u32)>, i: int)
    requires
        0 <= i < items.len(),
    ensures
        spec_put_list(fb, db, items.subrange(0, i + 1)) == spec_put(
            spec_put_list(fb, db, items.subrange(0, i)).0,
            spec_put_list(fb, db, items.subrange(0, i)).1,
            items[i].0,
            items[i].1,
        ),
{
    let pre = items.subrange(0, i + 1);
    assert(pre.drop_last() == items.subrange(0, i));
    assert(pre.last() == items[i]);
}

/// A color channel byte as a fixed-point fraction of full intensity.
pub open spec fn fx_of_byte(b: u8) -> Fx {
    fx(tdiv(b * FX_SCALE, 255))
}

/// A fixed-point intensity scaled back to a channel byte, rounded to the
/// nearest count and clamped to `[0, 255]`. The rounding makes the pack
/// the exact inverse of [`fx_of_byte`]: a byte survives the round trip
/// unchanged.
pub open spec fn byte_of_fx(v: Fx) -> u8 {
    let t = tdiv(v.raw * 255 + 32768, FX_SCALE as int);
    if t < 0 {
        0
    } else if t > 255 {
        255
    } else {
        t as u8
    }
}

/// Unpack a color into fixed-point channel intensities in `[0, 1]`:
/// red, green, blue, alpha.
pub fn color_to_float(color: u32) -> (r: (Fx, Fx, Fx, Fx))
    ensures
        r.0 == fx_of_byte(color_byte(color, 0)),
        r.1 == fx_of_byte(color_byte(color, 1)),
        r.2 == fx_of_byte(color_byte(color, 2)),
        r.3 == fx_of_byte(color_byte(color, 3)),
{
    (
        byte_to_fx((color >> 24) as u8),
        byte_to_fx((color >> 16) as u8),
        byte_to_fx((color >> 8) as u8),
        byte_to_fx(color as u8),
    )
}

/// One channel byte as a fixed-point fraction.
fn byte_to_fx(b: u8) -> (r: Fx)
    ensures
        r == fx_of_byte(b),
{
    let t: u64 = (b as u64) * (FX_SCALE as u64) / 255;
    Fx { raw: t as i64 }
}

/// Pack fixed-point channel intensities back into a color, each channel
/// clamped to its byte range.
pub fn float_to_color(c: (Fx, Fx, Fx, Fx)) -> (r: u32)
    ensures
        r == ((byte_of_fx(c.0) as u32) << 24) | ((byte_of_fx(c.1) as u32) << 16) | ((byte_of_fx(
            c.2,
        ) as u32) << 8) | (byte_of_fx(c.3) as u32),
{
    ((fx_to_byte(c.0) as u32) << 24) | ((fx_to_byte(c.1) as u32) << 16) | ((fx_to_byte(c.2) as u32)
        << 8) | (fx_to_byte(c.3) as u32)
}

/// One fixed-point intensity as a channel byte, rounded to nearest.
fn fx_to_byte(v: Fx) -> (r: u8)
    ensures
        r == byte_of_fx(v),
{
    assert(-0x1_0000_0000_0000_0000_0000 <= (v.raw as int) * 255 + 32768
        <= 0x1_0000_0000_0000_0000_0000) by (nonlinear_arith)
        requires
            -0x8000_0000_0000_0000 <= v.raw <= 0x7fff_ffff_ffff_ffff,
    ;
    let n: i128 = (v.raw as i128) * 255 + 32768;
    let t = crate::fixed::tdiv_i128(n, 65536);
    if t < 0 {
        0
    } else if t > 255 {
        255
    } else {
        t as u8
    }
}

/// A frame buffer holding `color` at every pixel.
pub open spec fn spec_cleared_frame(color: u32) -> Seq<u8> {
    Seq::new((WIDTH * HEIGHT * 4) as nat, |j: int| color_byte(color, j % 4))
}

/// A depth buffer reset to the far sentinel at every pixel.
pub open spec fn spec_cleared_depth() -> Seq<Fx> {
    Seq::new((WIDTH * HEIGHT) as nat, |j: int| Fx { raw: FAR_RAW })
}

/// Reset every pixel to `color` and every depth to the far sentinel.
pub fn clear(frame: &mut Vec<u8>, depth: &mut Vec<Fx>, color: u32)
    requires
        buffers_ok(old(frame)@, old(depth)@),
    ensures
        final(frame)@ == spec_cleared_frame(color),
        final(depth)@ == spec_cleared_depth(),
        buffers_ok(final(frame)@, final(depth)@),
{
    let mut j: usize = 0;
    while j < WIDTH * HEIGHT * 4
        invariant
            j <= WIDTH * HEIGHT * 4,
            frame@.len() == WIDTH * HEIGHT * 4,
            forall|k: int| 0 <= k < j ==> frame@[k] == color_byte(color, k % 4),
        decreases WIDTH * HEIGHT * 4 - j,
    {
        let m = j % 4;
        if m == 0 {
            frame[j] = (color >> 24) as u8;
        } else if m == 1 {
            frame[j] = (color >> 16) as u8;
        } else if m == 2 {
            frame[j] = (color >> 8) as u8;
        } else {
            frame[j] = color as u8;
        }
        j = j + 1;
    }
    assert(frame@ =~= spec_cleared_frame(color));
    clear_depth(depth);
}

/// Reset every depth to the far sentinel, leaving the frame alone.
pub fn clear_depth(depth: &mut Vec<Fx>)
    requires
        old(depth)@.len() == WIDTH * HEIGHT,
    ensures
        final(depth)@ == spec_cleared_depth(),
{
    let mut j: usize = 0;
    while j < WIDTH * HEIGHT
        invariant
            j <= WIDTH * HEIGHT,
            depth@.len() == WIDTH * HEIGHT,
            forall|k: int| 0 <= k < j ==> depth@[k] == (Fx { raw: FAR_RAW }),
        decreases WIDTH * HEIGHT - j,
    {
        depth[j] = Fx::from_raw(FAR_RAW);
        j = j + 1;
    }
    assert(depth@ =~= spec_cleared_depth());
}

/// The faded value of one frame byte: color channels are scaled by `f`,
/// alpha bytes are kept.
pub open spec fn spec_fade_byte(b: u8, j: int, f: Fx) -> u8 {
    if j % 4 == 3 {
        b
    } else {
        byte_of_fx(fx_mul(fx_of_byte(b), f))
    }
}

/// A frame with every color channel scaled by `f` and alpha kept.
pub open spec fn spec_faded_frame(fb: Seq<u8>, f: Fx) -> Seq<u8> {
    Seq::new(fb.len(), |j: int| spec_fade_byte(fb[j], j, f))
}

/// Scale every color channel of the frame by `f`, keeping alpha: the
/// motion-trail fade used during a jump, where color fades but depth is
/// cleared separately.
pub fn clear_fade(frame: &mut Vec<u8>, f: Fx)
    requires
        old(frame)@.len() == WIDTH * HEIGHT * 4,
    ensures
        final(frame)@.len() == WIDTH * HEIGHT * 4,
        final(frame)@ == spec_faded_frame(old(frame)@, f),
        forall|j: int|
            0 <= j < WIDTH * HEIGHT * 4 ==> final(frame)@[j] == spec_fade_byte(
                old(frame)@[j],
                j,
                f,
            ),
{
    let mut j: usize = 0;
    while j < WIDTH * HEIGHT * 4
        invariant
            j <= WIDTH * HEIGHT * 4,
            frame@.len() == WIDTH * HEIGHT * 4,
            forall|k: int| 0 <= k < j ==> frame@[k] == spec_fade_byte(old(frame)@[k], k, f),
            forall|k: int| j <= k < WIDTH * HEIGHT * 4 ==> frame@[k] == old(frame)@[k],
        decreases WIDTH * HEIGHT * 4 - j,
    {
        if j % 4 != 3 {
            let b = frame[j];
            frame[j] = fx_to_byte(byte_to_fx(b).mul(f));
        }
        j = j + 1;
    }
    assert(frame@ =~= spec_faded_frame(old(frame)@, f));
}

/// Write one depth-tested pixel; out-of-bounds points are dropped.
pub fn draw_pixel(frame: &mut Vec<u8>, depth: &mut Vec<Fx>, p: Vec3, color: u32)
    requires
        buffers_ok(old(frame)@, old(depth)@),
    ensures
        (final(frame)@, final(depth)@) == spec_put(old(frame)@, old(depth)@, p, color),
        buffers_ok(final(frame)@, final(depth)@),
{
    if out_of_bounds(p, 0) {
        return ;
    }
    let x = p.x.trunc();
    let y = p.y.trunc();
    assert(0 <= x < WIDTH as i64 && 0 <= y < HEIGHT as i64);
    let di: usize = ((HEIGHT as i64 - 1 - y) * WIDTH as i64 + x) as usize;
    assert(di == pix_at(x as int, y as int));
    if p.z.raw <= depth[di].raw {
        depth[di] = p.z;
        frame[4 * di] = (color >> 24) as u8;
        frame[4 * di + 1] = (color >> 16) as u8;
        frame[4 * di + 2] = (color >> 8) as u8;
        frame[4 * di + 3] = color as u8;
    }
}

/// The integer incremental line walk along a major axis: starting at
/// `(a, b)` with error accumulator `d`, each step advances `a` by one and
/// bumps `b` by `bi` exactly when the accumulator is positive.
pub open spec fn spec_bres_walk(n: nat, a: int, b: int, d: int, dmaj: int, dmin: int, bi: int) -> Seq<(int, int)>
    decreases n,
{
    if n == 0 {
        Seq::empty()
    } else if d > 0 {
        seq![(a, b)] + spec_bres_walk(
            (n - 1) as nat,
            a + 1,
            b + bi,
            d + 2 * (dmin - dmaj),
            dmaj,
            dmin,
            bi,
        )
    } else {
        seq![(a, b)] + spec_bres_walk((n - 1) as nat, a + 1, b, d + 2 * dmin, dmaj, dmin, bi)
    }
}

/// The walk emits one point per step.
pub proof fn lemma_bres_walk_len(n: nat, a: int, b: int, d: int, dmaj: int, dmin: int, bi: int)
    ensures
        spec_bres_walk(n, a, b, d, dmaj, dmin, bi).len() == n,
    decreases n,
{
    if n > 0 {
        if d > 0 {
            lemma_bres_walk_len((n - 1) as nat, a + 1, b + bi, d + 2 * (dmin - dmaj), dmaj, dmin, bi);
        } else {
            lemma_bres_walk_len((n - 1) as nat, a + 1, b, d + 2 * dmin, dmaj, dmin, bi);
        }
    }
}

/// Depth linearly interpolated along the parametric line position `i` of
/// `len` steps; a single-step line keeps the first depth (the guarded
/// degenerate case).
pub open spec fn spec_interp_z(i: int, len: int, z0: Fx, z1: Fx) -> Fx {
    if len <= 1 {
        z0
    } else {
        let di = Fx { raw: tdiv(i * FX_SCALE, len - 1) as i64 };
        fx_add(fx_mul(z0, fx_sub(Fx { raw: FX_SCALE }, di)), fx_mul(z1, di))
    }
}

/// The walked integer points as screen points with interpolated depth; with
/// `flip` the walk ran along y, so the pair is read as `(y, x)`.
pub open spec fn spec_line_points(pts: Seq<(int, int)>, z0: Fx, z1: Fx, flip: bool) -> Seq<Vec3> {
    Seq::new(
        pts.len(),
        |i: int|
            Vec3 {
                x: Fx { raw: ((if flip { pts[i].1 } else { pts[i].0 }) * FX_SCALE) as i64 },
                y: Fx { raw: ((if flip { pts[i].0 } else { pts[i].1 }) * FX_SCALE) as i64 },
                z: spec_interp_z(i, pts.len() as int, z0, z1),
            },
    )
}

/// The pixels of a line segment between two screen points: nothing when
/// both endpoints are out of bounds or the span exceeds the length cap;
/// otherwise the incremental walk along the major axis, normalized so the
/// major coordinate increases, with depth interpolated along the walk.
pub open spec fn spec_bresenham(p0: Vec3, p1: Vec3) -> Seq<Vec3> {
    if spec_out_of_bounds(p0, 0) && spec_out_of_bounds(p1, 0) {
        Seq::empty()
    } else {
        let x0 = tdiv(p0.x.raw as int, FX_SCALE as int);
        let y0 = tdiv(p0.y.raw as int, FX_SCALE as int);
        let x1 = tdiv(p1.x.raw as int, FX_SCALE as int);
        let y1 = tdiv(p1.y.raw as int, FX_SCALE as int);
        let adx = abs(x1 - x0) as int;
        let ady = abs(y1 - y0) as int;
        let length = (if ady >= adx {
            ady
        } else {
            adx
        }) + 1;
        if length > 4 * WIDTH {
            Seq::empty()
        } else if ady < adx {
            let (ax0, ay0, az0, ax1, ay1, az1) = if x0 > x1 {
                (x1, y1, p1.z, x0, y0, p0.z)
            } else {
                (x0, y0, p0.z, x1, y1, p1.z)
            };
            let dmaj = ax1 - ax0;
            let (dmin, bi) = if ay1 - ay0 < 0 {
                (ay0 - ay1, -1)
            } else {
                (ay1 - ay0, 1)
            };
            spec_line_points(
                spec_bres_walk((dmaj + 1) as nat, ax0, ay0, 2 * dmin - dmaj, dmaj, dmin, bi),
                az0,
                az1,
                false,
            )
        } else {
            let (ax0, ay0, az0, ax1, ay1, az1) = if y0 > y1 {
                (x1, y1, p1.z, x0, y0, p0.z)
            } else {
                (x0, y0, p0.z, x1, y1, p1.z)
            };
            let dmaj = ay1 - ay0;
            let (dmin, bi) = if ax1 - ax0 < 0 {
                (ax0 - ax1, -1)
            } else {
                (ax1 - ax0, 1)
            };
            spec_line_points(
                spec_bres_walk((dmaj + 1) as nat, ay0, ax0, 2 * dmin - dmaj, dmaj, dmin, bi),
                az0,
                az1,
                true,
            )
        }
    }
}

/// Interpolated depth at step `i` of `len`.
fn interp_z(i: i64, len: i64, z0: Fx, z1: Fx) -> (r: Fx)
    requires
        0 <= i < len,
        len <= 100000,
    ensures
        r == spec_interp_z(i as int, len as int, z0, z1),
{
    if len <= 1 {
        z0
    } else {
        assert(1 <= len - 1 <= 100000);
        assert(0 <= i <= 100000);
        let iu: u64 = i as u64;
        assert(iu <= 100000);
        let num: u64 = iu * 65536u64;
        assert(num == i * FX_SCALE);
        let di = Fx::from_raw((num / ((len - 1) as u64)) as i64);
        assert(di.raw == tdiv(i * FX_SCALE, len - 1));
        z0.mul(Fx::one().sub(di)).add(z1.mul(di))
    }
}

/// Walk the major axis from `a0` to `a1`, emitting one screen point per
/// step with interpolated depth.
fn bres_walk_exec(a0: i64, b0: i64, a1: i64, dmin: i64, bi: i64, z0: Fx, z1: Fx, flip: bool) -> (line: Vec<Vec3>)
    requires
        a0 <= a1,
        a1 - a0 <= 1280,
        0 <= dmin <= 1280,
        dmin <= a1 - a0,
        bi == 1 || bi == -1,
        -10000 <= a0 <= 10000,
        -10000 <= b0 <= 10000,
    ensures
        line@ == spec_line_points(
            spec_bres_walk(
                (a1 - a0 + 1) as nat,
                a0 as int,
                b0 as int,
                2 * dmin - (a1 - a0),
                (a1 - a0) as int,
                dmin as int,
                bi as int,
            ),
            z0,
            z1,
            flip,
        ),
{
    let dmaj = a1 - a0;
    let n = dmaj + 1;
    let ghost full = spec_bres_walk(
        n as nat,
        a0 as int,
        b0 as int,
        2 * dmin - dmaj,
        dmaj as int,
        dmin as int,
        bi as int,
    );
    proof {
        lemma_bres_walk_len(
            n as nat,
            a0 as int,
            b0 as int,
            2 * dmin - dmaj,
            dmaj as int,
            dmin as int,
            bi as int,
        );
    }
    let ghost target = spec_line_points(full, z0, z1, flip);
    let mut line: Vec<Vec3> = Vec::new();
    let mut i: i64 = 0;
    let mut b: i64 = b0;
    let mut d: i64 = 2 * dmin - dmaj;
    while i < n
        invariant
            0 <= i <= n,
            n == dmaj + 1,
            dmaj == a1 - a0,
            0 <= dmaj <= 1280,
            0 <= dmin <= 1280,
            bi == 1 || bi == -1,
            -10000 <= a0 <= 10000,
            b0 - i <= b <= b0 + i,
            -10000 <= b0 <= 10000,
            dmin <= dmaj,
            -2 * dmaj <= d <= 2 * dmin,
            full.len() == n,
            target == spec_line_points(full, z0, z1, flip),
            line@ == target.subrange(0, i as int),
            full.subrange(i as int, n as int) == spec_bres_walk(
                (n - i) as nat,
                a0 + i,
                b as int,
                d as int,
                dmaj as int,
                dmin as int,
                bi as int,
            ),
        decreases n - i,
    {
        proof {
            let suffix = spec_bres_walk(
                (n - i) as nat,
                a0 + i,
                b as int,
                d as int,
                dmaj as int,
                dmin as int,
                bi as int,
            );
            assert(full.subrange(i as int, n as int)[0] == full[i as int]);
            assert(full[i as int] == (a0 + i, b as int));
        }
        let a = a0 + i;
        let z = interp_z(i, n, z0, z1);
        let p = if flip {
            Vec3 { x: Fx::from_raw(b * FX_SCALE), y: Fx::from_raw(a * FX_SCALE), z }
        } else {
            Vec3 { x: Fx::from_raw(a * FX_SCALE), y: Fx::from_raw(b * FX_SCALE), z }
        };
        line.push(p);
        assert(line@ =~= target.subrange(0, i + 1));
        proof {
            let next_b: int = if d > 0 {
                b + bi
            } else {
                b as int
            };
            let next_d: int = if d > 0 {
                d + 2 * (dmin - dmaj)
            } else {
                d + 2 * dmin
            };
            lemma_bres_walk_len(
                (n - i - 1) as nat,
                a0 + i + 1,
                next_b,
                next_d,
                dmaj as int,
                dmin as int,
                bi as int,
            );
            assert(full.subrange(i + 1, n as int) =~= full.subrange(i as int, n as int).subrange(
                1,
                (n - i) as int,
            ));
            assert(full.subrange(i + 1, n as int) =~= spec_bres_walk(
                (n - i) as nat,
                a0 + i,
                b as int,
                d as int,
                dmaj as int,
                dmin as int,
                bi as int,
            ).subrange(1, (n - i) as int));
            assert(spec_bres_walk(
                (n - i) as nat,
                a0 + i,
                b as int,
                d as int,
                dmaj as int,
                dmin as int,
                bi as int,
            ).subrange(1, (n - i) as int) =~= spec_bres_walk(
                (n - i - 1) as nat,
                a0 + i + 1,
                next_b,
                next_d,
                dmaj as int,
                dmin as int,
                bi as int,
            ));
        }
        if d > 0 {
            b = b + bi;
            d = d + 2 * (dmin - dmaj);
        } else {
            d = d + 2 * dmin;
        }
        i = i + 1;
    }
    assert(line@ =~= target);
    line
}

/// Rasterize a line segment with an integer incremental walk, depth
/// interpolated along the walk; degenerate single-pixel segments keep the
/// first endpoint's depth, and segments with both endpoints out of bounds
/// or longer than the cap are skipped entirely.
pub fn bresenham(p0: Vec3, p1: Vec3) -> (line: Vec<Vec3>)
    ensures
        line@ == spec_bresenham(p0, p1),
{
    if out_of_bounds(p0, 0) && out_of_bounds(p1, 0) {
        return Vec::new();
    }
    let x0 = p0.x.trunc();
    let y0 = p0.y.trunc();
    let x1 = p1.x.trunc();
    let y1 = p1.y.trunc();
    let adx = if x1 >= x0 {
        x1 - x0
    } else {
        x0 - x1
    };
    let ady = if y1 >= y0 {
        y1 - y0
    } else {
        y0 - y1
    };
    let length = (if ady >= adx {
        ady
    } else {
        adx
    }) + 1;
    if length > 4 * WIDTH as i64 {
        return Vec::new();
    }
    assert(!spec_out_of_bounds(p0, 0) || !spec_out_of_bounds(p1, 0));
    assert(-1280 <= x1 - x0 <= 1280 && -1280 <= y1 - y0 <= 1280);
    assert((0 <= x0 < WIDTH && 0 <= y0 < HEIGHT) || (0 <= x1 < WIDTH && 0 <= y1 < HEIGHT));
    if ady < adx {
        if x0 > x1 {
            let dmin = if y0 - y1 < 0 {
                y1 - y0
            } else {
                y0 - y1
            };
            let bi: i64 = if y0 - y1 < 0 {
                -1
            } else {
                1
            };
            bres_walk_exec(x1, y1, x0, dmin, bi, p1.z, p0.z, false)
        } else {
            let dmin = if y1 - y0 < 0 {
                y0 - y1
            } else {
                y1 - y0
            };
            let bi: i64 = if y1 - y0 < 0 {
                -1
            } else {
                1
            };
            bres_walk_exec(x0, y0, x1, dmin, bi, p0.z, p1.z, false)
        }
    } else {
        if y0 > y1 {
            let dmin = if x0 - x1 < 0 {
                x1 - x0
            } else {
                x0 - x1
            };
            let bi: i64 = if x0 - x1 < 0 {
                -1
            } else {
                1
            };
            bres_walk_exec(y1, x1, y0, dmin, bi, p1.z, p0.z, true)
        } else {
            let dmin = if x1 - x0 < 0 {
                x0 - x1
            } else {
                x1 - x0
            };
            let bi: i64 = if x1 - x0 < 0 {
                -1
            } else {
                1
            };
            bres_walk_exec(y0, x0, y1, dmin, bi, p0.z, p1.z, true)
        }
    }
}

/// The pixel column of a screen point (its truncated x).
pub open spec fn xi(p: Vec3) -> int {
    tdiv(p.x.raw as int, FX_SCALE as int)
}

/// The pixel row of a screen point (its truncated y).
pub open spec fn yi(p: Vec3) -> int {
    tdiv(p.y.raw as int, FX_SCALE as int)
}

/// The distinct pixel rows of a point list, in first-occurrence order.
pub open spec fn spec_row_order(lines: Seq<Vec3>) -> Seq<int>
    decreases lines.len(),
{
    if lines.len() == 0 {
        Seq::empty()
    } else {
        let prev = spec_row_order(lines.drop_last());
        if prev.contains(yi(lines.last())) {
            prev
        } else {
            prev.push(yi(lines.last()))
        }
    }
}

/// The span of row `y` in a point list: the earliest point of minimal x and
/// the earliest point of maximal x, by the strict comparisons of the
/// running fold.
pub open spec fn spec_row_span(lines: Seq<Vec3>, y: int) -> (Vec3, Vec3)
    decreases lines.len(),
{
    if lines.len() == 0 {
        (Vec3 { x: Fx { raw: 0 }, y: Fx { raw: 0 }, z: Fx { raw: 0 } },
        Vec3 { x: Fx { raw: 0 }, y: Fx { raw: 0 }, z: Fx { raw: 0 } })
    } else {
        let p = lines.last();
        if yi(p) != y {
            spec_row_span(lines.drop_last(), y)
        } else if !spec_row_order(lines.drop_last()).contains(y) {
            (p, p)
        } else {
            let e = spec_row_span(lines.drop_last(), y);
            (
                if p.x.raw < e.0.x.raw {
                    p
                } else {
                    e.0
                },
                if p.x.raw > e.1.x.raw {
                    p
                } else {
                    e.1
                },
            )
        }
    }
}

/// The per-scanline min/max x-span map of a point list: one entry per
/// distinct pixel row, in first-occurrence order.
pub struct SpanMap {
    pub ys: Vec<i64>,
    pub spans: Vec<(Vec3, Vec3)>,
}

/// Find a row in the span map's key list.
fn span_find(ys: &Vec<i64>, y: i64) -> (r: Option<usize>)
    ensures
        match r {
            Some(i) => 0 <= i < ys@.len() && ys@[i as int] == y,
            None => forall|i: int| 0 <= i < ys@.len() ==> ys@[i] != y,
        },
{
    let mut i: usize = 0;
    while i < ys.len()
        invariant
            i <= ys@.len(),
            forall|j: int| 0 <= j < i ==> ys@[j] != y,
        decreases ys@.len() - i,
    {
        if ys[i] == y {
            return Some(i);
        }
        i = i + 1;
    }
    None
}

/// Build the per-scanline span map: for each pixel row touched by the
/// point list, the earliest point of minimal x and the earliest point of
/// maximal x.
pub fn map_lines(lines: &Vec<Vec3>) -> (r: SpanMap)
    ensures
        r.ys@.len() == spec_row_order(lines@).len(),
        r.spans@.len() == spec_row_order(lines@).len(),
        forall|k: int| 0 <= k < r.ys@.len() ==> r.ys@[k] == spec_row_order(lines@)[k],
        forall|k: int|
            0 <= k < r.ys@.len() ==> r.spans@[k] == spec_row_span(lines@, spec_row_order(lines@)[k]),
{
    let mut ys: Vec<i64> = Vec::new();
    let mut spans: Vec<(Vec3, Vec3)> = Vec::new();
    let mut i: usize = 0;
    while i < lines.len()
        invariant
            i <= lines@.len(),
            ys@.len() == spec_row_order(lines@.subrange(0, i as int)).len(),
            spans@.len() == ys@.len(),
            forall|k: int|
                0 <= k < ys@.len() ==> ys@[k] == spec_row_order(lines@.subrange(0, i as int))[k],
            forall|k: int|
                0 <= k < ys@.len() ==> spans@[k] == spec_row_span(
                    lines@.subrange(0, i as int),
                    spec_row_order(lines@.subrange(0, i as int))[k],
                ),
        decreases lines@.len() - i,
    {
        let ghost pre = lines@.subrange(0, i as int);
        let ghost cur = lines@.subrange(0, i + 1);
        proof {
            assert(cur.drop_last() =~= pre);
            assert(cur.last() == lines@[i as int]);
        }
        let p = lines[i];
        let py = p.y.trunc();
        proof {
            assert(py == yi(lines@[i as int]));
        }
        match span_find(&ys, py) {
            Some(k) => {
                let e = spans[k];
                let lo = if p.x.raw < e.0.x.raw {
                    p
                } else {
                    e.0
                };
                let hi = if p.x.raw > e.1.x.raw {
                    p
                } else {
                    e.1
                };
                let ghost old_spans = spans@;
                spans[k] = (lo, hi);
                proof {
                    let order = spec_row_order(pre);
                    assert(order[k as int] == py);
                    assert(order.contains(py as int));
                    assert(spec_row_order(cur) =~= order);
                    assert(spec_row_span(cur, py as int) == (lo, hi));
                    lemma_row_order_distinct(pre);
                    assert forall|k2: int|
                        0 <= k2 < ys@.len() && k2 != k implies spec_row_span(cur, order[k2])
                        == old_spans[k2] by {
                        assert(order[k2] != order[k as int]);
                        assert(yi(cur.last()) != order[k2]);
                        assert(spec_row_span(cur, order[k2]) == spec_row_span(pre, order[k2]));
                    }
                }
            },
            None => {
                proof {
                    let order = spec_row_order(pre);
                    assert(!order.contains(py as int)) by {
                        assert forall|j: int| 0 <= j < order.len() implies order[j] != py by {
                            assert(order[j] == ys@[j]);
                        }
                    }
                    assert(spec_row_order(cur) =~= order.push(py as int));
                    assert(spec_row_span(cur, py as int) == (lines@[i as int], lines@[i as int]));
                    assert forall|k2: int|
                        0 <= k2 < ys@.len() implies spec_row_span(cur, order[k2]) == spans@[k2] by {
                        assert(order[k2] == ys@[k2]);
                        assert(yi(cur.last()) != order[k2]);
                        assert(spec_row_span(cur, order[k2]) == spec_row_span(pre, order[k2]));
                    }
                }
                ys.push(py);
                spans.push((p, p));
            },
        }
        i = i + 1;
    }
    proof {
        assert(lines@.subrange(0, lines@.len() as int) =~= lines@);
    }
    SpanMap { ys, spans }
}

/// A list of points paired with one color.
pub open spec fn with_color(pts: Seq<Vec3>, color: u32) -> Seq<(Vec3, u32)> {
    Seq::new(pts.len(), |i: int| (pts[i], color))
}

/// Rasterize a line: every pixel of the incremental walk, depth-tested
/// into the buffers; skipped entirely when both endpoints are out of
/// bounds.
pub fn draw_line(frame: &mut Vec<u8>, depth: &mut Vec<Fx>, p0: Vec3, p1: Vec3, color: u32)
    requires
        buffers_ok(old(frame)@, old(depth)@),
    ensures
        (final(frame)@, final(depth)@) == spec_put_list(
            old(frame)@,
            old(depth)@,
            with_color(spec_bresenham(p0, p1), color),
        ),
        buffers_ok(final(frame)@, final(depth)@),
{
    if out_of_bounds(p0, 0) && out_of_bounds(p1, 0) {
        assert(with_color(spec_bresenham(p0, p1), color) =~= Seq::<(Vec3, u32)>::empty());
        return ;
    }
    let line = bresenham(p0, p1);
    let ghost items = with_color(line@, color);
    let mut i: usize = 0;
    while i < line.len()
        invariant
            i <= line@.len(),
            items == with_color(line@, color),
            buffers_ok(frame@, depth@),
            (frame@, depth@) == spec_put_list(old(frame)@, old(depth)@, items.subrange(0, i as int)),
        decreases line@.len() - i,
    {
        proof {
            lemma_put_list_snoc(old(frame)@, old(depth)@, items, i as int);
        }
        draw_pixel(frame, depth, line[i], color);
        i = i + 1;
    }
    assert(items.subrange(0, line@.len() as int) =~= items);
}

/// Whether some point of a list lands on the pixel `(y, x)`.
pub open spec fn spec_outline_contains(pts: Seq<Vec3>, y: int, x: int) -> bool {
    exists|i: int| 0 <= i < pts.len() && yi(pts[i]) == y && xi(pts[i]) == x
}

/// The outline pixel set of a polygon's edges, grouped as `(row, column)`
/// pairs.
pub struct OutlineMap {
    pub pts: Vec<(i64, i64)>,
}

/// Whether the outline set holds the pixel `(y, x)`.
pub open spec fn spec_om_has(m: OutlineMap, y: int, x: int) -> bool {
    exists|i: int| 0 <= i < m.pts@.len() && m.pts@[i].0 == y && m.pts@[i].1 == x
}

/// Collect the pixel set of the outline points.
pub fn map_outline(outline_lines: &Vec<Vec3>) -> (r: OutlineMap)
    ensures
        forall|y: int, x: int|
            #[trigger] spec_om_has(r, y, x) == spec_outline_contains(outline_lines@, y, x),
{
    let mut pts: Vec<(i64, i64)> = Vec::new();
    let mut i: usize = 0;
    while i < outline_lines.len()
        invariant
            i <= outline_lines@.len(),
            pts@.len() == i,
            forall|j: int|
                0 <= j < i ==> pts@[j].0 == yi(outline_lines@[j]) && pts@[j].1 == xi(
                    outline_lines@[j],
                ),
        decreases outline_lines@.len() - i,
    {
        let p = outline_lines[i];
        pts.push((p.y.trunc(), p.x.trunc()));
        i = i + 1;
    }
    let r = OutlineMap { pts };
    proof {
        assert forall|y: int, x: int|
            #[trigger] spec_om_has(r, y, x) == spec_outline_contains(outline_lines@, y, x) by {
            if spec_om_has(r, y, x) {
                let j = choose|j: int|
                    0 <= j < r.pts@.len() && r.pts@[j].0 == y && r.pts@[j].1 == x;
                assert(yi(outline_lines@[j]) == y && xi(outline_lines@[j]) == x);
            }
            if spec_outline_contains(outline_lines@, y, x) {
                let j = choose|j: int|
                    0 <= j < outline_lines@.len() && yi(outline_lines@[j]) == y && xi(
                        outline_lines@[j],
                    ) == x;
                assert(r.pts@[j].0 == y && r.pts@[j].1 == x);
            }
        }
    }
    r
}

/// Look a pixel up in the outline set.
fn om_contains(m: &OutlineMap, y: i64, x: i64) -> (r: bool)
    ensures
        r == spec_om_has(*m, y as int, x as int),
{
    let mut i: usize = 0;
    while i < m.pts.len()
        invariant
            i <= m.pts@.len(),
            forall|j: int| 0 <= j < i ==> !(m.pts@[j].0 == y && m.pts@[j].1 == x),
        decreases m.pts@.len() - i,
    {
        let (py, px) = m.pts[i];
        if py == y && px == x {
            return true;
        }
        i = i + 1;
    }
    false
}

/// The pixels of one filled scanline: every column of the row's span, with
/// depth interpolated between the span ends, drawn in the outline color on
/// outline pixels and the fill color elsewhere.
pub open spec fn spec_row_pixels(mn: Vec3, mx: Vec3, y: int, ol: Seq<Vec3>, color: u32, fill: u32) -> Seq<(Vec3, u32)> {
    if xi(mx) < xi(mn) {
        Seq::empty()
    } else {
        Seq::new(
            (xi(mx) - xi(mn) + 1) as nat,
            |k: int|
                {
                    let x = xi(mn) + k;
                    let dx = fx_div(
                        fx_sub(Fx { raw: (x * FX_SCALE) as i64 }, mn.x),
                        fx_max(fx_sub(mx.x, mn.x), Fx { raw: FX_SCALE }),
                    );
                    let z = fx_add(
                        fx_mul(mn.z, fx_sub(Fx { raw: FX_SCALE }, dx)),
                        fx_mul(mx.z, dx),
                    );
                    let c = if spec_outline_contains(ol, y, x) {
                        color
                    } else {
                        fill
                    };
                    (
                        Vec3 {
                            x: Fx { raw: (x * FX_SCALE) as i64 },
                            y: Fx { raw: (y * FX_SCALE) as i64 },
                            z,
                        },
                        c,
                    )
                },
        )
    }
}

/// The pixels of a set of filled scanlines, row by row.
pub open spec fn spec_rows_pixels(rows: Seq<int>, edges: Seq<Vec3>, ol: Seq<Vec3>, color: u32, fill: u32) -> Seq<(Vec3, u32)>
    decreases rows.len(),
{
    if rows.len() == 0 {
        Seq::empty()
    } else {
        spec_rows_pixels(rows.drop_last(), edges, ol, color, fill) + spec_row_pixels(
            spec_row_span(edges, rows.last()).0,
            spec_row_span(edges, rows.last()).1,
            rows.last(),
            ol,
            color,
            fill,
        )
    }
}

/// The pixels of a filled, outlined triangle: the three edges are walked,
/// grouped into per-row spans, and every span is filled with interpolated
/// depth, outline pixels in the outline color and interior pixels in the
/// fill color.
pub open spec fn spec_triangle_pixels(p0: Vec3, p1: Vec3, p2: Vec3, ol: Seq<Vec3>, color: u32, fill: u32) -> Seq<(Vec3, u32)> {
    let edges = spec_bresenham(p0, p1) + spec_bresenham(p1, p2) + spec_bresenham(p2, p0);
    spec_rows_pixels(spec_row_order(edges), edges, ol, color, fill)
}

/// Rasterize a filled triangle with a one-pass outline: scanline spans from
/// the three walked edges, each span filled with depth interpolated across
/// it, outline pixels drawn in `color` and interior pixels in `fill`.
/// Rejected entirely when all three corners are out of bounds.
pub fn draw_triangle_fill_outline(
    frame: &mut Vec<u8>,
    depth: &mut Vec<Fx>,
    p0: Vec3,
    p1: Vec3,
    p2: Vec3,
    outline_lines: &Vec<Vec3>,
    color: u32,
    fill: u32,
)
    requires
        buffers_ok(old(frame)@, old(depth)@),
    ensures
        spec_out_of_bounds(p0, 0) && spec_out_of_bounds(p1, 0) && spec_out_of_bounds(p2, 0)
            ==> final(frame)@ == old(frame)@ && final(depth)@ == old(depth)@,
        !(spec_out_of_bounds(p0, 0) && spec_out_of_bounds(p1, 0) && spec_out_of_bounds(p2, 0))
            ==> (final(frame)@, final(depth)@) == spec_put_list(
            old(frame)@,
            old(depth)@,
            spec_triangle_pixels(p0, p1, p2, outline_lines@, color, fill),
        ),
        buffers_ok(final(frame)@, final(depth)@),
{
    if out_of_bounds(p0, 0) && out_of_bounds(p1, 0) && out_of_bounds(p2, 0) {
        return ;
    }
    let mut lines = bresenham(p0, p1);
    let mut l2 = bresenham(p1, p2);
    lines.append(&mut l2);
    let mut l3 = bresenham(p2, p0);
    lines.append(&mut l3);
    let ghost edges = lines@;
    proof {
        assert(edges == spec_bresenham(p0, p1) + spec_bresenham(p1, p2) + spec_bresenham(p2, p0));
    }
    let sm = map_lines(&lines);
    let om = map_outline(outline_lines);
    let ghost rows = spec_row_order(edges);
    let ghost items_of = |k: int| spec_rows_pixels(rows.subrange(0, k), edges, outline_lines@, color, fill);
    let mut k: usize = 0;
    let n = sm.ys.len();
    while k < n
        invariant
            k <= n,
            n == sm.ys@.len(),
            rows == spec_row_order(edges),
            sm.ys@.len() == rows.len(),
            sm.spans@.len() == rows.len(),
            forall|j: int| 0 <= j < rows.len() ==> sm.ys@[j] == rows[j],
            forall|j: int| 0 <= j < rows.len() ==> sm.spans@[j] == spec_row_span(edges, rows[j]),
            forall|y: int, x: int|
                #[trigger] spec_om_has(om, y, x) == spec_outline_contains(outline_lines@, y, x),
            buffers_ok(old(frame)@, old(depth)@),
            buffers_ok(frame@, depth@),
            (frame@, depth@) == spec_put_list(
                old(frame)@,
                old(depth)@,
                spec_rows_pixels(rows.subrange(0, k as int), edges, outline_lines@, color, fill),
            ),
        decreases n - k,
    {
        let (mn, mx) = sm.spans[k];
        let y = sm.ys[k];
        proof {
            lemma_index_contains(rows, k as int);
            lemma_row_span_ordered(edges, rows[k as int]);
            lemma_row_order_bounds(edges);
            assert(y == rows[k as int]);
            assert(-0x8000_0000_0000 <= rows[k as int] <= 0x7fff_ffff_ffff);
        }
        let ghost row = spec_row_pixels(mn, mx, y as int, outline_lines@, color, fill);
        let ghost bf = frame@;
        let ghost bd = depth@;
        let mnx = mn.x.trunc();
        let mxx = mx.x.trunc();
        let wide = mx.x.sub(mn.x).max(Fx::one());
        let mut x = mnx;
        while x <= mxx
            invariant
                mnx <= x <= mxx + 1,
                mnx == xi(mn),
                mxx == xi(mx),
                -0x8000_0000_0000 <= mnx <= 0x7fff_ffff_ffff,
                -0x8000_0000_0000 <= mxx <= 0x7fff_ffff_ffff,
                -0x8000_0000_0000 <= y <= 0x7fff_ffff_ffff,
                wide == fx_max(fx_sub(mx.x, mn.x), Fx { raw: FX_SCALE }),
                wide.raw >= FX_SCALE,
                row == spec_row_pixels(mn, mx, y as int, outline_lines@, color, fill),
                forall|yy: int, xx: int|
                    #[trigger] spec_om_has(om, yy, xx) == spec_outline_contains(
                        outline_lines@,
                        yy,
                        xx,
                    ),
                buffers_ok(bf, bd),
                buffers_ok(frame@, depth@),
                (frame@, depth@) == spec_put_list(bf, bd, row.subrange(0, x - mnx)),
            decreases mxx + 1 - x,
        {
            let xf = Fx::from_raw(x * FX_SCALE);
            let dx = xf.sub(mn.x).div(wide);
            let z = mn.z.mul(Fx::one().sub(dx)).add(mx.z.mul(dx));
            let c = if om_contains(&om, y, x) {
                color
            } else {
                fill
            };
            let p = Vec3 { x: xf, y: Fx::from_raw(y * FX_SCALE), z };
            proof {
                assert(row[x - mnx] == (p, c));
                lemma_put_list_snoc(bf, bd, row, x - mnx);
            }
            draw_pixel(frame, depth, p, c);
            x = x + 1;
        }
        proof {
            if mxx < mnx {
                assert(row.subrange(0, 0) =~= row);
            } else {
                assert(row.subrange(0, mxx + 1 - mnx) =~= row);
            }
            assert((frame@, depth@) == spec_put_list(bf, bd, row));
            let pre = rows.subrange(0, k as int);
            let cur = rows.subrange(0, k + 1);
            assert(cur.drop_last() =~= pre);
            assert(cur.last() == rows[k as int]);
            assert(spec_rows_pixels(cur, edges, outline_lines@, color, fill)
                == spec_rows_pixels(pre, edges, outline_lines@, color, fill) + row);
            lemma_put_list_append(
                old(frame)@,
                old(depth)@,
                spec_rows_pixels(pre, edges, outline_lines@, color, fill),
                row,
            );
        }
        k = k + 1;
    }
    proof {
        assert(rows.subrange(0, rows.len() as int) =~= rows);
    }
}

/// A rectangle pixel at integer coordinates with a fixed depth.
pub open spec fn rect_pix(x: int, y: int, z: Fx, color: u32) -> (Vec3, u32) {
    (
        Vec3 { x: Fx { raw: (x * FX_SCALE) as i64 }, y: Fx { raw: (y * FX_SCALE) as i64 }, z },
        color,
    )
}

/// One filled rectangle column: rows `y0` through `y0 + ny - 1`.
pub open spec fn spec_fill_col(x: int, y0: int, ny: nat, z: Fx, color: u32) -> Seq<(Vec3, u32)> {
    Seq::new(ny, |k: int| rect_pix(x, y0 + k, z, color))
}

/// The pixels of a filled rectangle, column by column.
pub open spec fn spec_fill_rect(x0: int, y0: int, nx: nat, ny: nat, z: Fx, color: u32) -> Seq<
    (Vec3, u32),
>
    decreases nx,
{
    if nx == 0 {
        Seq::empty()
    } else {
        spec_fill_rect(x0, y0, (nx - 1) as nat, ny, z, color) + spec_fill_col(
            x0 + nx - 1,
            y0,
            ny,
            z,
            color,
        )
    }
}

/// One border rectangle column: the rows of the column that lie on the
/// rectangle's edge.
pub open spec fn spec_border_col(x: int, y0: int, ny: nat, x0: int, x1: int, yb0: int, yb1: int, z: Fx, color: u32) -> Seq<(Vec3, u32)>
    decreases ny,
{
    if ny == 0 {
        Seq::empty()
    } else {
        let y = y0 + ny - 1;
        spec_border_col(x, y0, (ny - 1) as nat, x0, x1, yb0, yb1, z, color) + (if x == x0 || x == x1
            || y == yb0 || y == yb1 {
            seq![rect_pix(x, y, z, color)]
        } else {
            Seq::empty()
        })
    }
}

/// The pixels of a rectangle outline, column by column.
pub open spec fn spec_border_rect(x0: int, y0: int, nx: nat, ny: nat, x1: int, y1: int, z: Fx, color: u32) -> Seq<(Vec3, u32)>
    decreases nx,
{
    if nx == 0 {
        Seq::empty()
    } else {
        spec_border_rect(x0, y0, (nx - 1) as nat, ny, x1, y1, z, color) + spec_border_col(
            x0 + nx - 1,
            y0,
            ny,
            x0,
            x1,
            y0,
            y1,
            z,
            color,
        )
    }
}

/// A filled rectangle with no rows has no pixels.
proof fn lemma_fill_rect_no_rows(x0: int, y0: int, nx: nat, z: Fx, color: u32)
    ensures
        spec_fill_rect(x0, y0, nx, 0, z, color) == Seq::<(Vec3, u32)>::empty(),
    decreases nx,
{
    if nx > 0 {
        lemma_fill_rect_no_rows(x0, y0, (nx - 1) as nat, z, color);
        assert(spec_fill_rect(x0, y0, nx, 0, z, color) =~= Seq::<(Vec3, u32)>::empty());
    }
}

/// A border rectangle with no rows has no pixels.
proof fn lemma_border_rect_no_rows(x0: int, y0: int, nx: nat, x1: int, y1: int, z: Fx, color: u32)
    ensures
        spec_border_rect(x0, y0, nx, 0, x1, y1, z, color) == Seq::<(Vec3, u32)>::empty(),
    decreases nx,
{
    if nx > 0 {
        lemma_border_rect_no_rows(x0, y0, (nx - 1) as nat, x1, y1, z, color);
        assert(spec_border_rect(x0, y0, nx, 0, x1, y1, z, color) =~= Seq::<(Vec3, u32)>::empty());
    }
}

/// The clamped, ordered integer corners of a rectangle given by two screen
/// points: x in `[-1, WIDTH]`, y in `[-1, HEIGHT]`.
pub open spec fn spec_rect_corners(p0: Vec3, p1: Vec3) -> (int, int, int, int) {
    let x0 = if xi(p0) <= xi(p1) {
        xi(p0)
    } else {
        xi(p1)
    };
    let x1 = if xi(p0) <= xi(p1) {
        xi(p1)
    } else {
        xi(p0)
    };
    let y0 = if yi(p0) <= yi(p1) {
        yi(p0)
    } else {
        yi(p1)
    };
    let y1 = if yi(p0) <= yi(p1) {
        yi(p1)
    } else {
        yi(p0)
    };
    let cx0 = if x0 < -1 {
        -1
    } else {
        x0
    };
    let cx1 = if x1 > WIDTH {
        WIDTH as int
    } else {
        x1
    };
    let cy0 = if y0 < -1 {
        -1
    } else {
        y0
    };
    let cy1 = if y1 > HEIGHT {
        HEIGHT as int
    } else {
        y1
    };
    (cx0, cy0, cx1, cy1)
}

/// Compute the clamped, ordered corners of a rectangle.
fn rect_corners(p0: Vec3, p1: Vec3) -> (r: (i64, i64, i64, i64))
    ensures
        r.0 == spec_rect_corners(p0, p1).0,
        r.1 == spec_rect_corners(p0, p1).1,
        r.2 == spec_rect_corners(p0, p1).2,
        r.3 == spec_rect_corners(p0, p1).3,
        -1 <= r.0,
        r.2 <= WIDTH,
        -1 <= r.1,
        r.3 <= HEIGHT,
        -0x8000_0000_0000 <= r.0 <= 0x7fff_ffff_ffff,
        -0x8000_0000_0000 <= r.1 <= 0x7fff_ffff_ffff,
        -0x8000_0000_0000 <= r.2 <= 0x7fff_ffff_ffff,
        -0x8000_0000_0000 <= r.3 <= 0x7fff_ffff_ffff,
{
    let mut x0 = p0.x.trunc();
    let mut y0 = p0.y.trunc();
    let mut x1 = p1.x.trunc();
    let mut y1 = p1.y.trunc();
    if x1 < x0 {
        let t = x0;
        x0 = x1;
        x1 = t;
    }
    if y1 < y0 {
        let t = y0;
        y0 = y1;
        y1 = t;
    }
    if x0 < -1 {
        x0 = -1;
    }
    if x1 > WIDTH as i64 {
        x1 = WIDTH as i64;
    }
    if y0 < -1 {
        y0 = -1;
    }
    if y1 > HEIGHT as i64 {
        y1 = HEIGHT as i64;
    }
    (x0, y0, x1, y1)
}

/// Draw an axis-aligned filled rectangle at the first corner's depth,
/// clamped to just beyond the frame bounds.
pub fn draw_rectangle_fill(frame: &mut Vec<u8>, depth: &mut Vec<Fx>, p0: Vec3, p1: Vec3, color: u32)
    requires
        buffers_ok(old(frame)@, old(depth)@),
    ensures
        ({
            let (cx0, cy0, cx1, cy1) = spec_rect_corners(p0, p1);
            let nx = if cx1 >= cx0 {
                (cx1 - cx0 + 1) as nat
            } else {
                0
            };
            let ny = if cy1 >= cy0 {
                (cy1 - cy0 + 1) as nat
            } else {
                0
            };
            (final(frame)@, final(depth)@) == spec_put_list(
                old(frame)@,
                old(depth)@,
                spec_fill_rect(cx0, cy0, nx, ny, p0.z, color),
            )
        }),
        buffers_ok(final(frame)@, final(depth)@),
{
    let (x0, y0, x1, y1) = rect_corners(p0, p1);
    let ghost nx: nat = if x1 >= x0 {
        (x1 - x0 + 1) as nat
    } else {
        0
    };
    let ghost ny: nat = if y1 >= y0 {
        (y1 - y0 + 1) as nat
    } else {
        0
    };
    if x1 < x0 {
        return ;
    }
    if y1 < y0 {
        proof {
            lemma_fill_rect_no_rows(x0 as int, y0 as int, nx, p0.z, color);
        }
        return ;
    }
    let mut x = x0;
    while x <= x1
        invariant
            x0 <= x <= x1 + 1,
            x0 <= x1,
            y0 <= y1,
            -2 <= x0 <= 0x7fff_ffff_ffff,
            x1 <= 0x7fff_ffff_ffff,
            -2 <= y0 <= 0x7fff_ffff_ffff,
            y1 <= 0x7fff_ffff_ffff,
            nx == (x1 - x0 + 1) as nat || (x1 < x0 && nx == 0),
            ny == if y1 >= y0 {
                (y1 - y0 + 1) as nat
            } else {
                0
            },
            buffers_ok(frame@, depth@),
            (frame@, depth@) == spec_put_list(
                old(frame)@,
                old(depth)@,
                spec_fill_rect(x0 as int, y0 as int, (x - x0) as nat, ny, p0.z, color),
            ),
        decreases x1 + 1 - x,
    {
        let ghost col = spec_fill_col(x as int, y0 as int, ny, p0.z, color);
        let ghost bf = frame@;
        let ghost bd = depth@;
        let mut y = y0;
        while y <= y1
            invariant
                y0 <= y <= y1 + 1,
                y0 <= y1,
                -2 <= y0 <= 0x7fff_ffff_ffff,
                y1 <= 0x7fff_ffff_ffff,
                -2 <= x <= 0x7fff_ffff_ffff,
                ny == if y1 >= y0 {
                    (y1 - y0 + 1) as nat
                } else {
                    0
                },
                col == spec_fill_col(x as int, y0 as int, ny, p0.z, color),
                buffers_ok(frame@, depth@),
                (frame@, depth@) == spec_put_list(bf, bd, col.subrange(0, y - y0)),
            decreases y1 + 1 - y,
        {
            let p = Vec3 { x: Fx::from_raw(x * FX_SCALE), y: Fx::from_raw(y * FX_SCALE), z: p0.z };
            proof {
                assert(col[y - y0] == rect_pix(x as int, y as int, p0.z, color));
                lemma_put_list_snoc(bf, bd, col, y - y0);
            }
            draw_pixel(frame, depth, p, color);
            y = y + 1;
        }
        proof {
            if y1 >= y0 {
                assert(col.subrange(0, y1 + 1 - y0) =~= col);
            } else {
                assert(col.subrange(0, 0) =~= col);
            }
            let pre = spec_fill_rect(x0 as int, y0 as int, (x - x0) as nat, ny, p0.z, color);
            assert(spec_fill_rect(x0 as int, y0 as int, (x + 1 - x0) as nat, ny, p0.z, color)
                == pre + col);
            lemma_put_list_append(old(frame)@, old(depth)@, pre, col);
        }
        x = x + 1;
    }
}

/// Draw an axis-aligned rectangle outline at the first corner's depth,
/// clamped to just beyond the frame bounds.
pub fn draw_rectangle(frame: &mut Vec<u8>, depth: &mut Vec<Fx>, p0: Vec3, p1: Vec3, color: u32)
    requires
        buffers_ok(old(frame)@, old(depth)@),
    ensures
        ({
            let (cx0, cy0, cx1, cy1) = spec_rect_corners(p0, p1);
            let nx = if cx1 >= cx0 {
                (cx1 - cx0 + 1) as nat
            } else {
                0
            };
            let ny = if cy1 >= cy0 {
                (cy1 - cy0 + 1) as nat
            } else {
                0
            };
            (final(frame)@, final(depth)@) == spec_put_list(
                old(frame)@,
                old(depth)@,
                spec_border_rect(cx0, cy0, nx, ny, cx1, cy1, p0.z, color),
            )
        }),
        buffers_ok(final(frame)@, final(depth)@),
{
    let (x0, y0, x1, y1) = rect_corners(p0, p1);
    let ghost nx: nat = if x1 >= x0 {
        (x1 - x0 + 1) as nat
    } else {
        0
    };
    let ghost ny: nat = if y1 >= y0 {
        (y1 - y0 + 1) as nat
    } else {
        0
    };
    if x1 < x0 {
        return ;
    }
    if y1 < y0 {
        proof {
            lemma_border_rect_no_rows(x0 as int, y0 as int, nx, x1 as int, y1 as int, p0.z, color);
        }
        return ;
    }
    let mut x = x0;
    while x <= x1
        invariant
            x0 <= x <= x1 + 1,
            x0 <= x1,
            y0 <= y1,
            -2 <= x0 <= 0x7fff_ffff_ffff,
            x1 <= 0x7fff_ffff_ffff,
            -2 <= y0 <= 0x7fff_ffff_ffff,
            y1 <= 0x7fff_ffff_ffff,
            nx == (x1 - x0 + 1) as nat || (x1 < x0 && nx == 0),
            ny == if y1 >= y0 {
                (y1 - y0 + 1) as nat
            } else {
                0
            },
            buffers_ok(frame@, depth@),
            (frame@, depth@) == spec_put_list(
                old(frame)@,
                old(depth)@,
                spec_border_rect(
                    x0 as int,
                    y0 as int,
                    (x - x0) as nat,
                    ny,
                    x1 as int,
                    y1 as int,
                    p0.z,
                    color,
                ),
            ),
        decreases x1 + 1 - x,
    {
        let ghost col = spec_border_col(
            x as int,
            y0 as int,
            ny,
            x0 as int,
            x1 as int,
            y0 as int,
            y1 as int,
            p0.z,
            color,
        );
        let ghost bf = frame@;
        let ghost bd = depth@;
        let mut y = y0;
        while y <= y1
            invariant
                y0 <= y <= y1 + 1,
                y0 <= y1,
                -2 <= y0 <= 0x7fff_ffff_ffff,
                y1 <= 0x7fff_ffff_ffff,
                -2 <= x <= 0x7fff_ffff_ffff,
                -2 <= x0 <= 0x7fff_ffff_ffff,
                x1 <= 0x7fff_ffff_ffff,
                ny == if y1 >= y0 {
                    (y1 - y0 + 1) as nat
                } else {
                    0
                },
                col == spec_border_col(
                    x as int,
                    y0 as int,
                    ny,
                    x0 as int,
                    x1 as int,
                    y0 as int,
                    y1 as int,
                    p0.z,
                    color,
                ),
                buffers_ok(frame@, depth@),
                (frame@, depth@) == spec_put_list(
                    bf,
                    bd,
                    spec_border_col(
                        x as int,
                        y0 as int,
                        (y - y0) as nat,
                        x0 as int,
                        x1 as int,
                        y0 as int,
                        y1 as int,
                        p0.z,
                        color,
                    ),
                ),
            decreases y1 + 1 - y,
        {
            let ghost pre = spec_border_col(
                x as int,
                y0 as int,
                (y - y0) as nat,
                x0 as int,
                x1 as int,
                y0 as int,
                y1 as int,
                p0.z,
                color,
            );
            let ghost cur = spec_border_col(
                x as int,
                y0 as int,
                (y + 1 - y0) as nat,
                x0 as int,
                x1 as int,
                y0 as int,
                y1 as int,
                p0.z,
                color,
            );
            if x == x0 || x == x1 || y == y0 || y == y1 {
                let p = Vec3 {
                    x: Fx::from_raw(x * FX_SCALE),
                    y: Fx::from_raw(y * FX_SCALE),
                    z: p0.z,
                };
                proof {
                    let single = seq![rect_pix(x as int, y as int, p0.z, color)];
                    assert(cur == pre + single);
                    lemma_put_list_append(bf, bd, pre, single);
                    assert(single.drop_last() =~= Seq::<(Vec3, u32)>::empty());
                    assert(p.x.raw == x * FX_SCALE && p.y.raw == y * FX_SCALE);
                    assert(rect_pix(x as int, y as int, p0.z, color).0 == p);
                    assert(single.last() == (p, color));
                    let a = spec_put_list(bf, bd, pre);
                    assert(single.drop_last() == Seq::<(Vec3, u32)>::empty());
                    assert(spec_put_list(a.0, a.1, Seq::<(Vec3, u32)>::empty()) == (a.0, a.1));
                    assert(spec_put_list(a.0, a.1, single) == spec_put(a.0, a.1, p, color));
                    assert(spec_put_list(bf, bd, cur) == spec_put(a.0, a.1, p, color));
                }
                draw_pixel(frame, depth, p, color);
                assert((frame@, depth@) == spec_put_list(bf, bd, cur));
            } else {
                proof {
                    assert(cur == pre + Seq::<(Vec3, u32)>::empty());
                    assert(cur =~= pre);
                }
                assert((frame@, depth@) == spec_put_list(bf, bd, cur));
            }
            y = y + 1;
        }
        proof {
            let colfull = spec_border_col(
                x as int,
                y0 as int,
                ny,
                x0 as int,
                x1 as int,
                y0 as int,
                y1 as int,
                p0.z,
                color,
            );
            let pre = spec_border_rect(
                x0 as int,
                y0 as int,
                (x - x0) as nat,
                ny,
                x1 as int,
                y1 as int,
                p0.z,
                color,
            );
            assert(spec_border_rect(
                x0 as int,
                y0 as int,
                (x + 1 - x0) as nat,
                ny,
                x1 as int,
                y1 as int,
                p0.z,
                color,
            ) == pre + colfull);
            lemma_put_list_append(old(frame)@, old(depth)@, pre, colfull);
        }
        x = x + 1;
    }
}

/// The pixels of one `scale x scale` block of a glyph cell, row-major
/// within the block.
pub open spec fn spec_block(bx: int, by: int, scale: nat, z: Fx, color: u32) -> Seq<(Vec3, u32)> {
    Seq::new((scale * scale) as nat, |m: int| rect_pix(bx + m % (scale as int), by + m / (scale as int), z, color))
}

/// The pixels of one glyph row: each set bit expands to a block.
pub open spec fn spec_sprite_row(bits: Seq<u8>, nj: nat, bx: int, by: int, scale: nat, z: Fx, color: u32) -> Seq<(Vec3, u32)>
    decreases nj,
{
    if nj == 0 {
        Seq::empty()
    } else {
        spec_sprite_row(bits, (nj - 1) as nat, bx, by, scale, z, color) + (if bits[nj - 1] == 1 {
            spec_block(bx + scale * (nj - 1), by, scale, z, color)
        } else {
            Seq::empty()
        })
    }
}

/// The pixels of a glyph: the bitmap is read bottom-to-top (source row 0 is
/// the bottom row of the glyph), each set bit expanding to a
/// `scale x scale` block.
pub open spec fn spec_sprite_rows(sprite: Seq<Vec<u8>>, ni: nat, bx: int, by: int, scale: nat, z: Fx, color: u32) -> Seq<(Vec3, u32)>
    decreases ni,
{
    if ni == 0 || ni > sprite.len() {
        Seq::empty()
    } else {
        spec_sprite_rows(sprite, (ni - 1) as nat, bx, by, scale, z, color) + spec_sprite_row(
            sprite[sprite.len() - ni]@,
            sprite[sprite.len() - ni]@.len(),
            bx,
            by + scale * (ni - 1),
            scale,
            z,
            color,
        )
    }
}

/// The pixels of a glyph blit at a screen point.
pub open spec fn spec_sprite(sprite: Seq<Vec<u8>>, p: Vec3, scale: nat, color: u32) -> Seq<(Vec3, u32)> {
    spec_sprite_rows(sprite, sprite.len(), xi(p), yi(p), scale, p.z, color)
}

/// Draw one `scale x scale` block of pixels at a fixed depth.
fn draw_block(frame: &mut Vec<u8>, depth: &mut Vec<Fx>, bx: i64, by: i64, scale: i64, z: Fx, color: u32)
    requires
        buffers_ok(old(frame)@, old(depth)@),
        0 <= scale <= 10000,
        -0x100_0000_0000 <= bx <= 0x100_0000_0000,
        -0x100_0000_0000 <= by <= 0x100_0000_0000,
    ensures
        (final(frame)@, final(depth)@) == spec_put_list(
            old(frame)@,
            old(depth)@,
            spec_block(bx as int, by as int, scale as nat, z, color),
        ),
        buffers_ok(final(frame)@, final(depth)@),
{
    let ghost blk = spec_block(bx as int, by as int, scale as nat, z, color);
    let mut di: i64 = 0;
    let mut m: i64 = 0;
    while di < scale
        invariant
            0 <= di <= scale,
            0 <= scale <= 10000,
            m == di * scale,
            -0x100_0000_0000 <= bx <= 0x100_0000_0000,
            -0x100_0000_0000 <= by <= 0x100_0000_0000,
            blk == spec_block(bx as int, by as int, scale as nat, z, color),
            blk.len() == scale * scale,
            buffers_ok(frame@, depth@),
            (frame@, depth@) == spec_put_list(old(frame)@, old(depth)@, blk.subrange(0, m as int)),
        decreases scale - di,
    {
        let mut dj: i64 = 0;
        while dj < scale
            invariant
                0 <= dj <= scale,
                0 <= di < scale,
                0 <= scale <= 10000,
                m == di * scale + dj,
                -0x100_0000_0000 <= bx <= 0x100_0000_0000,
                -0x100_0000_0000 <= by <= 0x100_0000_0000,
                blk == spec_block(bx as int, by as int, scale as nat, z, color),
                blk.len() == scale * scale,
                buffers_ok(frame@, depth@),
                (frame@, depth@) == spec_put_list(
                    old(frame)@,
                    old(depth)@,
                    blk.subrange(0, m as int),
                ),
            decreases scale - dj,
        {
            proof {
                assert(0 <= m && m < scale * scale) by (nonlinear_arith)
                    requires
                        m == di * scale + dj,
                        0 <= di < scale,
                        0 <= dj < scale,
                ;
                vstd::arithmetic::div_mod::lemma_fundamental_div_mod_converse(
                    m as int,
                    scale as int,
                    di as int,
                    dj as int,
                );
                assert(blk[m as int] == rect_pix(bx + dj, by + di, z, color));
                lemma_put_list_snoc(old(frame)@, old(depth)@, blk, m as int);
            }
            let p = Vec3 {
                x: Fx::from_raw((bx + dj) * FX_SCALE),
                y: Fx::from_raw((by + di) * FX_SCALE),
                z,
            };
            draw_pixel(frame, depth, p, color);
            proof {
                assert(m < 0x1_0000_0000) by (nonlinear_arith)
                    requires
                        m == di * scale + dj,
                        0 <= di < scale,
                        0 <= dj < scale,
                        scale <= 10000,
                ;
            }
            dj = dj + 1;
            m = m + 1;
        }
        proof {
            assert((di + 1) * scale == di * scale + scale) by (nonlinear_arith);
        }
        di = di + 1;
    }
    proof {
        assert(scale * scale == blk.len());
        assert(blk.subrange(0, blk.len() as int) =~= blk);
    }
}

/// Blit a bitmap glyph: the grid is read bottom-to-top and each set bit
/// expands to a `scale x scale` block at the glyph's depth. A negative
/// scale draws nothing.
pub fn draw_sprite(frame: &mut Vec<u8>, depth: &mut Vec<Fx>, p: Vec3, sprite: &Vec<Vec<u8>>, scale: i64, color: u32)
    requires
        buffers_ok(old(frame)@, old(depth)@),
        scale <= 10000,
        sprite@.len() <= 10000,
        forall|i: int| 0 <= i < sprite@.len() ==> #[trigger] sprite@[i]@.len() <= 10000,
        -0x80_0000_0000_0000 <= p.x.raw <= 0x80_0000_0000_0000,
        -0x80_0000_0000_0000 <= p.y.raw <= 0x80_0000_0000_0000,
    ensures
        scale < 0 ==> final(frame)@ == old(frame)@ && final(depth)@ == old(depth)@,
        scale >= 0 ==> (final(frame)@, final(depth)@) == spec_put_list(
            old(frame)@,
            old(depth)@,
            spec_sprite(sprite@, p, scale as nat, color),
        ),
        buffers_ok(final(frame)@, final(depth)@),
{
    if scale < 0 {
        return ;
    }
    let bx = p.x.trunc();
    let by = p.y.trunc();
    proof {
        lemma_pix_bounds(p);
        crate::fixed::lemma_tdiv_scale_bound(p.x.raw as int, 0x80_0000_0000);
        crate::fixed::lemma_tdiv_scale_bound(p.y.raw as int, 0x80_0000_0000);
    }
    let n = sprite.len();
    let mut i: usize = 0;
    while i < n
        invariant
            0 <= i <= n,
            n == sprite@.len(),
            n <= 10000,
            0 <= scale <= 10000,
            forall|k: int| 0 <= k < sprite@.len() ==> #[trigger] sprite@[k]@.len() <= 10000,
            bx == xi(p),
            by == yi(p),
            -0x80_0000_0000 <= bx <= 0x80_0000_0000,
            -0x80_0000_0000 <= by <= 0x80_0000_0000,
            buffers_ok(frame@, depth@),
            (frame@, depth@) == spec_put_list(
                old(frame)@,
                old(depth)@,
                spec_sprite_rows(sprite@, i as nat, bx as int, by as int, scale as nat, p.z, color),
            ),
        decreases n - i,
    {
        let ghost pre = spec_sprite_rows(
            sprite@,
            i as nat,
            bx as int,
            by as int,
            scale as nat,
            p.z,
            color,
        );
        let row = &sprite[n - 1 - i];
        let ghost rowfull = spec_sprite_row(
            row@,
            row@.len(),
            bx as int,
            (by + scale * i as i64) as int,
            scale as nat,
            p.z,
            color,
        );
        proof {
            assert(sprite@[sprite@.len() - (i + 1)]@ == row@);
            assert(spec_sprite_rows(
                sprite@,
                (i + 1) as nat,
                bx as int,
                by as int,
                scale as nat,
                p.z,
                color,
            ) == pre + rowfull);
            lemma_put_list_append(old(frame)@, old(depth)@, pre, rowfull);
        }
        let ghost bf = frame@;
        let ghost bd = depth@;
        assert(0 <= scale * (i as i64) <= 0x6000_0000) by (nonlinear_arith)
            requires
                0 <= scale <= 10000,
                0 <= i <= 10000,
        ;
        let rowy = by + scale * (i as i64);
        let mut j: usize = 0;
        let nj = row.len();
        while j < nj
            invariant
                0 <= j <= nj,
                nj == row@.len(),
                nj <= 10000,
                0 <= scale <= 10000,
                -0x80_0000_0000 <= bx <= 0x80_0000_0000,
                -0xE0_0000_0000 <= rowy <= 0xE0_0000_0000,
                rowfull == spec_sprite_row(
                    row@,
                    row@.len(),
                    bx as int,
                    rowy as int,
                    scale as nat,
                    p.z,
                    color,
                ),
                buffers_ok(frame@, depth@),
                (frame@, depth@) == spec_put_list(
                    bf,
                    bd,
                    spec_sprite_row(
                        row@,
                        j as nat,
                        bx as int,
                        rowy as int,
                        scale as nat,
                        p.z,
                        color,
                    ),
                ),
            decreases nj - j,
        {
            let ghost rpre = spec_sprite_row(
                row@,
                j as nat,
                bx as int,
                rowy as int,
                scale as nat,
                p.z,
                color,
            );
            if row[j] == 1 {
                proof {
                    assert(spec_sprite_row(
                        row@,
                        (j + 1) as nat,
                        bx as int,
                        rowy as int,
                        scale as nat,
                        p.z,
                        color,
                    ) == rpre + spec_block(
                        bx + scale * j as i64,
                        rowy as int,
                        scale as nat,
                        p.z,
                        color,
                    ));
                    lemma_put_list_append(
                        bf,
                        bd,
                        rpre,
                        spec_block(bx + scale * j as i64, rowy as int, scale as nat, p.z, color),
                    );
                }
                assert(0 <= scale * (j as i64) <= 0x6000_0000) by (nonlinear_arith)
                    requires
                        0 <= scale <= 10000,
                        0 <= j <= 10000,
                ;
                draw_block(frame, depth, bx + scale * (j as i64), rowy, scale, p.z, color);
            } else {
                proof {
                    assert(spec_sprite_row(
                        row@,
                        (j + 1) as nat,
                        bx as int,
                        rowy as int,
                        scale as nat,
                        p.z,
                        color,
                    ) =~= rpre);
                }
            }
            j = j + 1;
        }
        proof {
            assert((frame@, depth@) == spec_put_list(bf, bd, rowfull));
        }
        i = i + 1;
    }
    proof {
        assert(spec_sprite(sprite@, p, scale as nat, color) == spec_sprite_rows(
            sprite@,
            sprite@.len(),
            bx as int,
            by as int,
            scale as nat,
            p.z,
            color,
        ));
    }
}

/// The pixels of a text run: glyphs advance left to right by
/// `offset * scale` pixels per character, and the line-feed byte resets the
/// column and moves down one line; bytes past the end of the font are
/// skipped without advancing.
pub open spec fn spec_text_pixels(text: Seq<u8>, font: Seq<Vec<Vec<u8>>>, p: Vec3, dx: int, dy: int, offset: int, scale: nat, color: u32) -> Seq<(Vec3, u32)>
    decreases text.len(),
{
    if text.len() == 0 {
        Seq::empty()
    } else {
        let c = text[0] as int;
        if c < font.len() {
            let gp = Vec3 {
                x: fx_add(p.x, Fx { raw: (dx * FX_SCALE) as i64 }),
                y: fx_add(p.y, Fx { raw: (dy * FX_SCALE) as i64 }),
                z: p.z,
            };
            let head = spec_sprite(font[c]@, gp, scale, color);
            let dx2 = if text[0] == 10 {
                0
            } else {
                dx + offset * scale
            };
            let dy2 = if text[0] == 10 {
                dy - offset * scale
            } else {
                dy
            };
            head + spec_text_pixels(text.drop_first(), font, p, dx2, dy2, offset, scale, color)
        } else {
            spec_text_pixels(text.drop_first(), font, p, dx, dy, offset, scale, color)
        }
    }
}

/// Draw a text run of bitmap glyphs: fixed-cell advance, line-feed starts
/// a new line, and every glyph is blitted at the run's depth.
pub fn draw_text(
    frame: &mut Vec<u8>,
    depth: &mut Vec<Fx>,
    p: Vec3,
    text: &Vec<u8>,
    font: &Vec<Vec<Vec<u8>>>,
    offset: i64,
    scale: i64,
    color: u32,
)
    requires
        buffers_ok(old(frame)@, old(depth)@),
        0 <= scale <= 1000,
        0 <= offset <= 1000,
        text@.len() <= 1000,
        forall|g: int|
            0 <= g < font@.len() ==> #[trigger] font@[g]@.len() <= 10000 && forall|r: int|
                0 <= r < font@[g]@.len() ==> #[trigger] font@[g]@[r]@.len() <= 10000,
        -0x4_0000_0000_0000 <= p.x.raw <= 0x4_0000_0000_0000,
        -0x4_0000_0000_0000 <= p.y.raw <= 0x4_0000_0000_0000,
    ensures
        (final(frame)@, final(depth)@) == spec_put_list(
            old(frame)@,
            old(depth)@,
            spec_text_pixels(text@, font@, p, 0, 0, offset as int, scale as nat, color),
        ),
        buffers_ok(final(frame)@, final(depth)@),
{
    let ghost full = spec_text_pixels(text@, font@, p, 0, 0, offset as int, scale as nat, color);
    proof {
        assert(text@.skip(0) =~= text@);
    }
    let mut i: usize = 0;
    let mut dx: i64 = 0;
    let mut dy: i64 = 0;
    let n = text.len();
    while i < n
        invariant
            0 <= i <= n,
            n == text@.len(),
            n <= 1000,
            0 <= scale <= 1000,
            0 <= offset <= 1000,
            0 <= dx <= 1_000_000 * i,
            -1_000_000 * i <= dy <= 0,
            -0x4_0000_0000_0000 <= p.x.raw <= 0x4_0000_0000_0000,
            -0x4_0000_0000_0000 <= p.y.raw <= 0x4_0000_0000_0000,
            forall|g: int|
                0 <= g < font@.len() ==> #[trigger] font@[g]@.len() <= 10000 && forall|r: int|
                    0 <= r < font@[g]@.len() ==> #[trigger] font@[g]@[r]@.len() <= 10000,
            full == spec_text_pixels(text@, font@, p, 0, 0, offset as int, scale as nat, color),
            buffers_ok(frame@, depth@),
            spec_put_list(old(frame)@, old(depth)@, full) == spec_put_list(
                frame@,
                depth@,
                spec_text_pixels(
                    text@.skip(i as int),
                    font@,
                    p,
                    dx as int,
                    dy as int,
                    offset as int,
                    scale as nat,
                    color,
                ),
            ),
        decreases n - i,
    {
        let ghost rest = spec_text_pixels(
            text@.skip(i as int),
            font@,
            p,
            dx as int,
            dy as int,
            offset as int,
            scale as nat,
            color,
        );
        proof {
            assert(text@.skip(i as int)[0] == text@[i as int]);
            assert(text@.skip(i as int).drop_first() =~= text@.skip(i + 1));
        }
        let c = text[i];
        if (c as usize) < font.len() {
            let gp = Vec3 {
                x: p.x.add(Fx::from_raw(dx * FX_SCALE)),
                y: p.y.add(Fx::from_raw(dy * FX_SCALE)),
                z: p.z,
            };
            let ghost head = spec_sprite(font@[c as int]@, gp, scale as nat, color);
            proof {
                assert(0 <= 1_000_000 * (i as int) <= 1_000_000_000);
                assert(gp.x.raw == p.x.raw + dx * FX_SCALE);
                assert(-0x80_0000_0000_0000 <= gp.x.raw <= 0x80_0000_0000_0000);
                assert(-0x80_0000_0000_0000 <= gp.y.raw <= 0x80_0000_0000_0000);
                let dx2: int = if c == 10 {
                    0
                } else {
                    dx + offset * scale
                };
                let dy2: int = if c == 10 {
                    dy - offset * scale
                } else {
                    dy as int
                };
                assert(rest == head + spec_text_pixels(
                    text@.skip(i + 1),
                    font@,
                    p,
                    dx2,
                    dy2,
                    offset as int,
                    scale as nat,
                    color,
                ));
                lemma_put_list_append(
                    frame@,
                    depth@,
                    head,
                    spec_text_pixels(
                        text@.skip(i + 1),
                        font@,
                        p,
                        dx2,
                        dy2,
                        offset as int,
                        scale as nat,
                        color,
                    ),
                );
            }
            draw_sprite(frame, depth, gp, &font[c as usize], scale, color);
            proof {
                assert(0 <= offset * scale <= 1_000_000) by (nonlinear_arith)
                    requires
                        0 <= offset <= 1000,
                        0 <= scale <= 1000,
                ;
            }
            dx = dx + offset * scale;
            if c == 10 {
                dx = 0;
                dy = dy - offset * scale;
            }
        } else {
            proof {
                assert(rest == spec_text_pixels(
                    text@.skip(i + 1),
                    font@,
                    p,
                    dx as int,
                    dy as int,
                    offset as int,
                    scale as nat,
                    color,
                ));
            }
        }
        i = i + 1;
    }
    proof {
        assert(text@.skip(n as int) =~= Seq::<u8>::empty());
        assert(spec_put_list(old(frame)@, old(depth)@, full) == (frame@, depth@));
    }
}

/// Project and draw a single world-space point.
pub fn draw_point_3d(frame: &mut Vec<u8>, depth: &mut Vec<Fx>, v: Vec3, camera: &Camera, color: u32)
    requires
        buffers_ok(old(frame)@, old(depth)@),
    ensures
        (final(frame)@, final(depth)@) == spec_put(
            old(frame)@,
            old(depth)@,
            spec_world_to_screen(v, *camera),
            color,
        ),
        buffers_ok(final(frame)@, final(depth)@),
{
    let p = transform_world_to_screen(v, camera);
    draw_pixel(frame, depth, p, color);
}

/// Project and draw a world-space line segment.
pub fn draw_line_3d(frame: &mut Vec<u8>, depth: &mut Vec<Fx>, v0: Vec3, v1: Vec3, camera: &Camera, color: u32)
    requires
        buffers_ok(old(frame)@, old(depth)@),
    ensures
        (final(frame)@, final(depth)@) == spec_put_list(
            old(frame)@,
            old(depth)@,
            with_color(
                spec_bresenham(
                    spec_world_to_screen(v0, *camera),
                    spec_world_to_screen(v1, *camera),
                ),
                color,
            ),
        ),
        buffers_ok(final(frame)@, final(depth)@),
{
    let p0 = transform_world_to_screen(v0, camera);
    let p1 = transform_world_to_screen(v1, camera);
    draw_line(frame, depth, p0, p1, color);
}

/// The effect of a filled, outlined triangle draw, including its whole-
/// triangle rejection when all corners are out of bounds.
pub open spec fn spec_triangle_effect(fb: Seq<u8>, db: Seq<Fx>, q0: Vec3, q1: Vec3, q2: Vec3, ol: Seq<Vec3>, color: u32, fill: u32) -> (Seq<u8>, Seq<Fx>) {
    if spec_out_of_bounds(q0, 0) && spec_out_of_bounds(q1, 0) && spec_out_of_bounds(q2, 0) {
        (fb, db)
    } else {
        spec_put_list(fb, db, spec_triangle_pixels(q0, q1, q2, ol, color, fill))
    }
}

/// Project a triangle's corners and rasterize it filled with a one-pass
/// outline.
pub fn draw_triangle_fill_outline_3d(
    frame: &mut Vec<u8>,
    depth: &mut Vec<Fx>,
    v0: Vec3,
    v1: Vec3,
    v2: Vec3,
    outline_lines: &Vec<Vec3>,
    camera: &Camera,
    color: u32,
    fill: u32,
)
    requires
        buffers_ok(old(frame)@, old(depth)@),
    ensures
        (final(frame)@, final(depth)@) == spec_triangle_effect(
            old(frame)@,
            old(depth)@,
            spec_world_to_screen(v0, *camera),
            spec_world_to_screen(v1, *camera),
            spec_world_to_screen(v2, *camera),
            outline_lines@,
            color,
            fill,
        ),
        buffers_ok(final(frame)@, final(depth)@),
{
    let p0 = transform_world_to_screen(v0, camera);
    let p1 = transform_world_to_screen(v1, camera);
    let p2 = transform_world_to_screen(v2, camera);
    draw_triangle_fill_outline(frame, depth, p0, p1, p2, outline_lines, color, fill);
}

/// The walked screen-space edge pixels of a polygon's first `k` edges;
/// edge `j` joins vertex `j` to vertex `(j + 1) mod len`.
pub open spec fn spec_poly_outline_edges(pts: Seq<Vec3>, camera: Camera, k: nat) -> Seq<Vec3>
    decreases k,
{
    if k == 0 || pts.len() == 0 {
        Seq::empty()
    } else {
        spec_poly_outline_edges(pts, camera, (k - 1) as nat) + spec_bresenham(
            spec_world_to_screen(pts[k - 1], camera),
            spec_world_to_screen(pts[(k as int) % (pts.len() as int)], camera),
        )
    }
}

/// The effect of the first `k` triangles of the fan over a polygon:
/// triangle `j` joins vertex 0 with vertices `j + 1` and `j + 2`.
pub open spec fn spec_fan_effect(fb: Seq<u8>, db: Seq<Fx>, poly: Seq<Vec3>, ol: Seq<Vec3>, camera: Camera, color: u32, fill: u32, k: nat) -> (Seq<u8>, Seq<Fx>)
    decreases k,
{
    if k == 0 || poly.len() < k + 2 {
        (fb, db)
    } else {
        let prev = spec_fan_effect(fb, db, poly, ol, camera, color, fill, (k - 1) as nat);
        spec_triangle_effect(
            prev.0,
            prev.1,
            spec_world_to_screen(poly[0], camera),
            spec_world_to_screen(poly[k as int], camera),
            spec_world_to_screen(poly[k + 1int], camera),
            ol,
            color,
            fill,
        )
    }
}

/// The effect of drawing the first `k` wireframe edges of a polygon.
pub open spec fn spec_wire_effect(fb: Seq<u8>, db: Seq<Fx>, poly: Seq<Vec3>, camera: Camera, color: u32, k: nat) -> (Seq<u8>, Seq<Fx>)
    decreases k,
{
    if k == 0 || poly.len() == 0 {
        (fb, db)
    } else {
        let prev = spec_wire_effect(fb, db, poly, camera, color, (k - 1) as nat);
        spec_put_list(
            prev.0,
            prev.1,
            with_color(
                spec_bresenham(
                    spec_world_to_screen(poly[k - 1], camera),
                    spec_world_to_screen(poly[(k as int) % (poly.len() as int)], camera),
                ),
                color,
            ),
        )
    }
}

/// The effect of drawing one polygon: a point, a line, or a fan of filled
/// triangles (or a wireframe when the fill is the transparent sentinel),
/// backface-culled by the sign of the face normal against the view
/// direction; degenerate faces with a zero normal are dropped.
pub open spec fn spec_polygon_effect(fb: Seq<u8>, db: Seq<Fx>, poly: Seq<Vec3>, camera: Camera, color: u32, fill: u32) -> (Seq<u8>, Seq<Fx>) {
    if poly.len() == 1 {
        spec_put(fb, db, spec_world_to_screen(poly[0], camera), color)
    } else if poly.len() == 2 {
        spec_put_list(
            fb,
            db,
            with_color(
                spec_bresenham(
                    spec_world_to_screen(poly[0], camera),
                    spec_world_to_screen(poly[1], camera),
                ),
                color,
            ),
        )
    } else if poly.len() >= 3 {
        let nn = crate::math::v3_cross(
            crate::math::v3_sub(poly[1], poly[0]),
            crate::math::v3_sub(poly[2], poly[0]),
        );
        if crate::math::v3_len(nn).raw == 0 {
            (fb, db)
        } else {
            let n2 = crate::math::v3_scale(crate::math::v3_normalize(nn), Fx { raw: 655360 });
            if crate::math::v3_dot(n2, crate::math::v3_sub(camera.position, poly[0])).raw >= 0 {
                if fill != 0 {
                    spec_fan_effect(
                        fb,
                        db,
                        poly,
                        spec_poly_outline_edges(poly, camera, poly.len()),
                        camera,
                        color,
                        fill,
                        (poly.len() - 2) as nat,
                    )
                } else {
                    spec_wire_effect(fb, db, poly, camera, color, poly.len())
                }
            } else {
                (fb, db)
            }
        }
    } else {
        (fb, db)
    }
}

/// Draw one polygon: a point, a line segment, or a backface-culled fan of
/// filled and outlined triangles (wireframe edges when the fill color is
/// the transparent sentinel).
#[verifier::rlimit(50)]
pub fn draw_polygon_3d(frame: &mut Vec<u8>, depth: &mut Vec<Fx>, polygon: &Vec<Vec3>, camera: &Camera, color: u32, fill: u32)
    requires
        buffers_ok(old(frame)@, old(depth)@),
    ensures
        (final(frame)@, final(depth)@) == spec_polygon_effect(
            old(frame)@,
            old(depth)@,
            polygon@,
            *camera,
            color,
            fill,
        ),
        buffers_ok(final(frame)@, final(depth)@),
{
    let n = polygon.len();
    if n == 1 {
        draw_point_3d(frame, depth, polygon[0], camera, color);
    } else if n == 2 {
        draw_line_3d(frame, depth, polygon[0], polygon[1], camera, color);
    } else if n >= 3 {
        let nn = polygon[1].sub(polygon[0]).cross(polygon[2].sub(polygon[0]));
        if nn.len().raw == 0 {
            return ;
        }
        let n2 = nn.normalize().scale(Fx::from_raw(655360));
        if n2.dot(camera.position.sub(polygon[0])).raw >= 0 {
            if fill != 0 {
                let mut outline_points: Vec<Vec3> = Vec::new();
                let mut i: usize = 0;
                while i < n
                    invariant
                        i <= n,
                        n == polygon@.len(),
                        outline_points@.len() == i,
                        forall|j: int|
                            0 <= j < i ==> outline_points@[j] == spec_world_to_screen(
                                polygon@[j],
                                *camera,
                            ),
                    decreases n - i,
                {
                    outline_points.push(transform_world_to_screen(polygon[i], camera));
                    i = i + 1;
                }
                let mut outline_lines: Vec<Vec3> = Vec::new();
                let mut i: usize = 0;
                while i < n
                    invariant
                        i <= n,
                        n == polygon@.len(),
                        n >= 3,
                        outline_points@.len() == n,
                        forall|j: int|
                            0 <= j < n ==> outline_points@[j] == spec_world_to_screen(
                                polygon@[j],
                                *camera,
                            ),
                        outline_lines@ == spec_poly_outline_edges(polygon@, *camera, i as nat),
                    decreases n - i,
                {
                    let mut seg = bresenham(outline_points[i], outline_points[(i + 1) % n]);
                    outline_lines.append(&mut seg);
                    i = i + 1;
                }
                let ghost ol = spec_poly_outline_edges(polygon@, *camera, polygon@.len());
                let mut i: usize = 2;
                while i < n
                    invariant
                        2 <= i <= n,
                        n == polygon@.len(),
                        n >= 3,
                        fill != 0,
                        outline_lines@ == ol,
                        ol == spec_poly_outline_edges(polygon@, *camera, polygon@.len()),
                        buffers_ok(frame@, depth@),
                        (frame@, depth@) == spec_fan_effect(
                            old(frame)@,
                            old(depth)@,
                            polygon@,
                            ol,
                            *camera,
                            color,
                            fill,
                            (i - 2) as nat,
                        ),
                    decreases n - i,
                {
                    draw_triangle_fill_outline_3d(
                        frame,
                        depth,
                        polygon[0],
                        polygon[i - 1],
                        polygon[i],
                        &outline_lines,
                        camera,
                        color,
                        fill,
                    );
                    i = i + 1;
                }
            } else {
                let mut i: usize = 0;
                while i < n
                    invariant
                        i <= n,
                        n == polygon@.len(),
                        n >= 3,
                        buffers_ok(frame@, depth@),
                        (frame@, depth@) == spec_wire_effect(
                            old(frame)@,
                            old(depth)@,
                            polygon@,
                            *camera,
                            color,
                            i as nat,
                        ),
                    decreases n - i,
                {
                    draw_line_3d(frame, depth, polygon[i], polygon[(i + 1) % n], camera, color);
                    i = i + 1;
                }
            }
        }
    }
}

/// The effect of drawing the first `k` polygons of a mesh.
pub open spec fn spec_mesh_effect(fb: Seq<u8>, db: Seq<Fx>, mesh: Seq<Seq<Vec3>>, camera: Camera, color: u32, fill: u32, k: nat) -> (Seq<u8>, Seq<Fx>)
    decreases k,
{
    if k == 0 || mesh.len() < k {
        (fb, db)
    } else {
        let prev = spec_mesh_effect(fb, db, mesh, camera, color, fill, (k - 1) as nat);
        spec_polygon_effect(prev.0, prev.1, mesh[k - 1], camera, color, fill)
    }
}

/// Draw every polygon of a mesh.
pub fn draw_mesh_3d(frame: &mut Vec<u8>, depth: &mut Vec<Fx>, mesh: &Vec<Vec<Vec3>>, camera: &Camera, color: u32, fill: u32)
    requires
        buffers_ok(old(frame)@, old(depth)@),
    ensures
        (final(frame)@, final(depth)@) == spec_mesh_effect(
            old(frame)@,
            old(depth)@,
            mesh@.map_values(|p: Vec<Vec3>| p@),
            *camera,
            color,
            fill,
            mesh@.len() as nat,
        ),
        buffers_ok(final(frame)@, final(depth)@),
{
    let ghost msq = mesh@.map_values(|p: Vec<Vec3>| p@);
    let n = mesh.len();
    let mut i: usize = 0;
    while i < n
        invariant
            i <= n,
            n == mesh@.len(),
            msq == mesh@.map_values(|p: Vec<Vec3>| p@),
            buffers_ok(frame@, depth@),
            (frame@, depth@) == spec_mesh_effect(
                old(frame)@,
                old(depth)@,
                msq,
                *camera,
                color,
                fill,
                i as nat,
            ),
        decreases n - i,
    {
        proof {
            assert(msq[i as int] == mesh@[i as int]@);
        }
        draw_polygon_3d(frame, depth, &mesh[i], camera, color, fill);
        i = i + 1;
    }
}

/// The level-of-detail tier of an object.
#[derive(Clone, Copy, PartialEq, Eq, Structural, Debug)]
pub enum Lod {
    Filled,
    Wireframe,
    Point,
}

/// The level-of-detail policy: past the far threshold a small object
/// degrades to a single point, past the near threshold to a wireframe;
/// large objects (scale at least 1000) always render filled.
pub open spec fn spec_lod_tier(distance: Fx, scale_x: Fx) -> Lod {
    if distance.raw > 655360000 && scale_x.raw < 65536000 {
        Lod::Point
    } else if distance.raw > 262144000 && scale_x.raw < 65536000 {
        Lod::Wireframe
    } else {
        Lod::Filled
    }
}

/// Select the level-of-detail tier for an object at a camera distance.
pub fn lod_tier(distance: Fx, scale_x: Fx) -> (r: Lod)
    ensures
        r == spec_lod_tier(distance, scale_x),
{
    if distance.raw > 655360000 && scale_x.raw < 65536000 {
        Lod::Point
    } else if distance.raw > 262144000 && scale_x.raw < 65536000 {
        Lod::Wireframe
    } else {
        Lod::Filled
    }
}

/// A farther object never renders at a more detailed tier: with the
/// object's scale fixed, growing the camera distance can only move the
/// tier from filled toward wireframe and then a point.
pub proof fn lemma_lod_monotone(d1: Fx, d2: Fx, scale_x: Fx)
    requires
        d1.raw <= d2.raw,
    ensures
        spec_lod_tier(d1, scale_x) == Lod::Point ==> spec_lod_tier(d2, scale_x) == Lod::Point,
        spec_lod_tier(d1, scale_x) == Lod::Wireframe ==> spec_lod_tier(d2, scale_x) != Lod::Filled,
{
}

/// The effect of drawing one object under the level-of-detail policy: past
/// the far threshold a small object is a single point at its origin, past
/// the near threshold its mesh is drawn wireframe-only, otherwise filled.
pub open spec fn spec_object_effect(fb: Seq<u8>, db: Seq<Fx>, mesh: Seq<Seq<Vec3>>, model: crate::math::Mat4, color: u32, fill: u32, camera: Camera) -> (Seq<u8>, Seq<Fx>) {
    let origin = crate::math::m4_transform_point(model, crate::math::v3_zero());
    let cam_origin = crate::math::m4_transform_point(camera.model, crate::math::v3_zero());
    let distance = crate::math::v3_len(crate::math::v3_sub(origin, cam_origin));
    let scale_x = crate::math::v3_len(model.x_axis);
    let tier = spec_lod_tier(distance, scale_x);
    if tier == Lod::Point {
        spec_put(fb, db, spec_world_to_screen(origin, camera), color)
    } else if tier == Lod::Wireframe {
        spec_mesh_effect(
            fb,
            db,
            crate::transform::spec_transform_mesh(mesh, model),
            camera,
            color,
            0x00000000,
            mesh.len(),
        )
    } else {
        spec_mesh_effect(
            fb,
            db,
            crate::transform::spec_transform_mesh(mesh, model),
            camera,
            color,
            fill,
            mesh.len(),
        )
    }
}

/// Draw an object with distance-based level of detail: full fill near,
/// wireframe past the first threshold, a single point past the second;
/// large objects never degrade.
pub fn draw_object(frame: &mut Vec<u8>, depth: &mut Vec<Fx>, object: &crate::game::Object, camera: &Camera)
    requires
        buffers_ok(old(frame)@, old(depth)@),
    ensures
        (final(frame)@, final(depth)@) == spec_object_effect(
            old(frame)@,
            old(depth)@,
            object.mesh@.map_values(|p: Vec<Vec3>| p@),
            object.model,
            object.color,
            object.fill,
            *camera,
        ),
        buffers_ok(final(frame)@, final(depth)@),
{
    let ghost msq = object.mesh@.map_values(|p: Vec<Vec3>| p@);
    let scale_x = object.model.x_axis.len();
    let origin = object.model.transform_point(Vec3::zero());
    let cam_origin = camera.model.transform_point(Vec3::zero());
    let distance = origin.sub(cam_origin).len();
    let tier = lod_tier(distance, scale_x);
    match tier {
        Lod::Point => {
            draw_point_3d(frame, depth, origin, camera, object.color);
        },
        Lod::Wireframe => {
            let tm = crate::transform::transform_mesh(&object.mesh, &object.model);
            proof {
                assert(tm@.map_values(|p: Vec<Vec3>| p@) =~= crate::transform::spec_transform_mesh(
                    msq,
                    object.model,
                ));
            }
            draw_mesh_3d(frame, depth, &tm, camera, object.color, 0x00000000);
        },
        Lod::Filled => {
            let tm = crate::transform::transform_mesh(&object.mesh, &object.model);
            proof {
                assert(tm@.map_values(|p: Vec<Vec3>| p@) =~= crate::transform::spec_transform_mesh(
                    msq,
                    object.model,
                ));
            }
            draw_mesh_3d(frame, depth, &tm, camera, object.color, object.fill);
        },
    }
}

/// Truncated pixel coordinates always lie in the range a 64-bit raw count
/// allows.
pub proof fn lemma_pix_bounds(p: Vec3)
    ensures
        -0x8000_0000_0000 <= xi(p) <= 0x7fff_ffff_ffff,
        -0x8000_0000_0000 <= yi(p) <= 0x7fff_ffff_ffff,
{
    if p.x.raw >= 0 {
        vstd::arithmetic::div_mod::lemma_div_is_ordered(
            p.x.raw as int,
            0x7fff_ffff_ffff_ffff,
            FX_SCALE as int,
        );
        vstd::arithmetic::div_mod::lemma_div_pos_is_pos(p.x.raw as int, FX_SCALE as int);
    } else {
        vstd::arithmetic::div_mod::lemma_div_is_ordered(
            -(p.x.raw as int),
            0x8000_0000_0000_0000,
            FX_SCALE as int,
        );
        vstd::arithmetic::div_mod::lemma_div_pos_is_pos(-(p.x.raw as int), FX_SCALE as int);
    }
    if p.y.raw >= 0 {
        vstd::arithmetic::div_mod::lemma_div_is_ordered(
            p.y.raw as int,
            0x7fff_ffff_ffff_ffff,
            FX_SCALE as int,
        );
        vstd::arithmetic::div_mod::lemma_div_pos_is_pos(p.y.raw as int, FX_SCALE as int);
    } else {
        vstd::arithmetic::div_mod::lemma_div_is_ordered(
            -(p.y.raw as int),
            0x8000_0000_0000_0000,
            FX_SCALE as int,
        );
        vstd::arithmetic::div_mod::lemma_div_pos_is_pos(-(p.y.raw as int), FX_SCALE as int);
    }
}

/// Every row key of a point list is a truncated pixel coordinate, so it is
/// bounded.
pub proof fn lemma_row_order_bounds(lines: Seq<Vec3>)
    ensures
        forall|k: int|
            0 <= k < spec_row_order(lines).len() ==> -0x8000_0000_0000 <= #[trigger] spec_row_order(
                lines,
            )[k] <= 0x7fff_ffff_ffff,
    decreases lines.len(),
{
    if lines.len() > 0 {
        lemma_row_order_bounds(lines.drop_last());
        lemma_pix_bounds(lines.last());
        let prev = spec_row_order(lines.drop_last());
        if !prev.contains(yi(lines.last())) {
            assert(spec_row_order(lines) == prev.push(yi(lines.last())));
        }
    }
}

/// A row's span is ordered: the low end's x never exceeds the high end's,
/// both as raw values and as pixel columns.
pub proof fn lemma_row_span_ordered(lines: Seq<Vec3>, y: int)
    requires
        spec_row_order(lines).contains(y),
    ensures
        spec_row_span(lines, y).0.x.raw <= spec_row_span(lines, y).1.x.raw,
        xi(spec_row_span(lines, y).0) <= xi(spec_row_span(lines, y).1),
    decreases lines.len(),
{
    let p = lines.last();
    let prev = spec_row_order(lines.drop_last());
    if yi(p) != y {
        assert(prev.contains(y)) by {
            let j = choose|j: int|
                0 <= j < spec_row_order(lines).len() && spec_row_order(lines)[j] == y;
            if !prev.contains(yi(p)) {
                assert(spec_row_order(lines) == prev.push(yi(p)));
                assert(j < prev.len());
            }
        }
        lemma_row_span_ordered(lines.drop_last(), y);
    } else if prev.contains(y) {
        lemma_row_span_ordered(lines.drop_last(), y);
    }
    crate::fixed::lemma_tdiv_le(
        spec_row_span(lines, y).0.x.raw as int,
        spec_row_span(lines, y).1.x.raw as int,
        FX_SCALE as int,
    );
}

/// Depth test correctness at one pixel: after the nearer fragment lands,
/// a farther fragment at the same pixel changes nothing; and drawn in
/// either order, the pixel ends holding the nearer fragment's color and
/// depth.
pub proof fn lemma_depth_test_order(fb: Seq<u8>, db: Seq<Fx>, pn: Vec3, pf: Vec3, cn: u32, cf: u32)
    requires
        buffers_ok(fb, db),
        !spec_out_of_bounds(pn, 0),
        !spec_out_of_bounds(pf, 0),
        xi(pn) == xi(pf),
        yi(pn) == yi(pf),
        pn.z.raw < pf.z.raw,
        pn.z.raw <= db[pix_at(xi(pn), yi(pn))].raw,
    ensures
        ({
            let s1 = spec_put(fb, db, pn, cn);
            spec_put(s1.0, s1.1, pf, cf) == s1
        }),
        ({
            let s2 = spec_put(fb, db, pf, cf);
            let s3 = spec_put(s2.0, s2.1, pn, cn);
            s3.1[pix_at(xi(pn), yi(pn))] == pn.z && s3.0[4 * pix_at(xi(pn), yi(pn))] == color_byte(
                cn,
                0,
            )
        }),
{
    let di = pix_at(xi(pn), yi(pn));
    assert(0 <= xi(pn) < WIDTH && 0 <= yi(pn) < HEIGHT);
    assert(0 <= di < WIDTH * HEIGHT);
    let s1 = spec_put(fb, db, pn, cn);
    assert(s1.1 == db.update(di, pn.z));
    assert(s1.1[di] == pn.z);
    assert(spec_put(s1.0, s1.1, pf, cf) == s1);
    let s2 = spec_put(fb, db, pf, cf);
    assert(s2.1.len() == db.len());
    assert(pn.z.raw <= s2.1[di].raw);
    let s3 = spec_put(s2.0, s2.1, pn, cn);
    assert(s3.1 == s2.1.update(di, pn.z));
}

/// Line rasterization is symmetric: walking a segment from either end
/// yields the same pixels, whenever the endpoints land on distinct pixels
/// (or carry equal depths, where the degenerate single-pixel walk keeps
/// the first endpoint's depth).
pub proof fn lemma_bresenham_symmetric(p0: Vec3, p1: Vec3)
    requires
        xi(p0) != xi(p1) || yi(p0) != yi(p1) || p0.z == p1.z,
    ensures
        spec_bresenham(p0, p1) == spec_bresenham(p1, p0),
{
    if !(spec_out_of_bounds(p0, 0) && spec_out_of_bounds(p1, 0)) {
        let x0 = xi(p0);
        let y0 = yi(p0);
        let x1 = xi(p1);
        let y1 = yi(p1);
        assert(abs(x1 - x0) == abs(x0 - x1));
        assert(abs(y1 - y0) == abs(y0 - y1));
        if abs(y1 - y0) < abs(x1 - x0) {
            assert(x0 != x1);
        } else {
            if y0 == y1 {
                assert(abs(y1 - y0) == 0);
                assert(abs(x1 - x0) == 0);
                assert(x0 == x1 && p0.z == p1.z);
            }
        }
    }
}

/// A sequence contains each of its elements.
proof fn lemma_index_contains(s: Seq<int>, k: int)
    requires
        0 <= k < s.len(),
    ensures
        s.contains(s[k]),
{
    let v = s[k];
    assert(s[k] == v);
    assert(s.contains(v)) by {
        assert(exists|j: int| 0 <= j < s.len() && s[j] == v) by {
            assert(0 <= k < s.len());
            assert(s[k] == v);
        }
    }
}

/// The rows of the first-occurrence order are distinct.
pub proof fn lemma_row_order_distinct(lines: Seq<Vec3>)
    ensures
        forall|a: int, b: int|
            0 <= a < b < spec_row_order(lines).len() ==> spec_row_order(lines)[a]
                != spec_row_order(lines)[b],
    decreases lines.len(),
{
    if lines.len() > 0 {
        lemma_row_order_distinct(lines.drop_last());
        let prev = spec_row_order(lines.drop_last());
        let y = yi(lines.last());
        if !prev.contains(y) {
            assert(forall|a: int| 0 <= a < prev.len() ==> prev[a] != y);
            assert(spec_row_order(lines) == prev.push(y));
        }
    }
}

} // verus!
