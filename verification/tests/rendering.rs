use exo::fixed::Fx;
use exo::graphics::{
    bresenham, clear, clear_depth, clear_fade, draw_line, draw_object, draw_pixel,
    draw_rectangle, draw_rectangle_fill, draw_sprite, draw_text, draw_triangle_fill_outline,
    lod_tier, Lod,
};
use exo::math::{Mat4, Quat, Vec3};
use exo::transform::{out_of_bounds, transform_world_to_screen, Camera};
use exo::{HEIGHT, WIDTH};

fn buffers() -> (Vec<u8>, Vec<Fx>) {
    (vec![0u8; WIDTH * HEIGHT * 4], vec![Fx::from_raw(65536000000); WIDTH * HEIGHT])
}

fn v(x: f64, y: f64, z: f64) -> Vec3 {
    Vec3 {
        x: Fx::from_raw((x * 65536.0) as i64),
        y: Fx::from_raw((y * 65536.0) as i64),
        z: Fx::from_raw((z * 65536.0) as i64),
    }
}

fn pixel(frame: &[u8], x: usize, y: usize) -> (u8, u8, u8, u8) {
    let i = ((HEIGHT - 1 - y) * WIDTH + x) * 4;
    (frame[i], frame[i + 1], frame[i + 2], frame[i + 3])
}

fn centered_camera() -> Camera {
    Camera {
        position: Vec3::zero(),
        rotation: Quat::identity(),
        fov: Fx::from_i32(90),
        model: Mat4::identity(),
        view: Mat4::identity(),
    }
}

#[test]
fn projection_hits_the_image_center() {
    let camera = centered_camera();
    for d in [1.0, 10.0, 1000.0] {
        let p = transform_world_to_screen(v(0.0, 0.0, -d), &camera);
        assert_eq!(p.x.raw, 160 * 65536, "x at distance {d}");
        assert_eq!(p.y.raw, 120 * 65536, "y at distance {d}");
    }
}

#[test]
fn projection_depth_grows_with_distance() {
    let camera = centered_camera();
    let mut last = i64::MIN;
    for d in [0.05, 0.5, 1.0, 5.0, 50.0, 500.0, 5000.0] {
        let p = transform_world_to_screen(v(0.0, 0.0, -d), &camera);
        assert!(p.z.raw >= last, "depth at {d} went backward");
        last = p.z.raw;
    }
}

#[test]
fn depth_test_keeps_the_near_fragment() {
    let (mut frame, mut depth) = buffers();
    let near = v(100.0, 100.0, 10.0);
    let far = v(100.0, 100.0, 20.0);
    draw_pixel(&mut frame, &mut depth, near, 0xff0000ff);
    draw_pixel(&mut frame, &mut depth, far, 0x00ff00ff);
    assert_eq!(pixel(&frame, 100, 100), (0xff, 0, 0, 0xff));

    let (mut frame, mut depth) = buffers();
    draw_pixel(&mut frame, &mut depth, far, 0x00ff00ff);
    draw_pixel(&mut frame, &mut depth, near, 0xff0000ff);
    assert_eq!(pixel(&frame, 100, 100), (0xff, 0, 0, 0xff));
}

#[test]
fn out_of_bounds_pixels_are_dropped() {
    let (mut frame, mut depth) = buffers();
    let before = frame.clone();
    draw_pixel(&mut frame, &mut depth, v(-5.0, 10.0, 1.0), 0xffffffff);
    draw_pixel(&mut frame, &mut depth, v(10.0, 400.0, 1.0), 0xffffffff);
    draw_pixel(&mut frame, &mut depth, v(10.0, 10.0, -1.0), 0xffffffff);
    assert_eq!(frame, before);
    assert!(out_of_bounds(v(-5.0, 10.0, 1.0), 0));
    assert!(!out_of_bounds(v(5.0, 10.0, 1.0), 0));
}

#[test]
fn bresenham_is_symmetric_in_every_octant() {
    let ends = [
        (40.0, 15.0),
        (40.0, 35.0),
        (15.0, 40.0),
        (-5.0, 40.0),
        (-10.0, 15.0),
        (-10.0, -5.0),
        (15.0, -10.0),
        (40.0, -5.0),
    ];
    let p0 = v(10.0, 10.0, 1.0);
    for (x, y) in ends {
        let p1 = v(x, y, 2.0);
        let a = bresenham(p0, p1);
        let b = bresenham(p1, p0);
        assert!(!a.is_empty());
        assert_eq!(a.len(), b.len());
        for i in 0..a.len() {
            assert_eq!(a[i].x.raw, b[i].x.raw);
            assert_eq!(a[i].y.raw, b[i].y.raw);
            assert_eq!(a[i].z.raw, b[i].z.raw);
        }
    }
}

#[test]
fn bresenham_covers_both_endpoints() {
    let a = bresenham(v(3.0, 4.0, 1.0), v(9.0, 7.0, 1.0));
    assert_eq!((a[0].x.trunc(), a[0].y.trunc()), (3, 4));
    let last = a.last().unwrap();
    assert_eq!((last.x.trunc(), last.y.trunc()), (9, 7));
    assert_eq!(a.len(), 7);
}

#[test]
fn triangle_fill_draws_outline_over_fill() {
    let (mut frame, mut depth) = buffers();
    let p0 = v(10.0, 10.0, 1.0);
    let p1 = v(50.0, 10.0, 1.0);
    let p2 = v(10.0, 50.0, 1.0);
    let mut outline = bresenham(p0, p1);
    outline.append(&mut bresenham(p1, p2));
    outline.append(&mut bresenham(p2, p0));
    draw_triangle_fill_outline(
        &mut frame,
        &mut depth,
        p0,
        p1,
        p2,
        &outline,
        0xff0000ff,
        0x0000ffff,
    );
    // Edge pixels carry the outline color, strictly interior pixels the fill.
    assert_eq!(pixel(&frame, 30, 10), (0xff, 0, 0, 0xff));
    assert_eq!(pixel(&frame, 10, 30), (0xff, 0, 0, 0xff));
    assert_eq!(pixel(&frame, 20, 20), (0, 0, 0xff, 0xff));
    // Outside stays untouched.
    assert_eq!(pixel(&frame, 60, 60), (0, 0, 0, 0));
}

#[test]
fn rectangle_fill_and_border() {
    let (mut frame, mut depth) = buffers();
    draw_rectangle_fill(&mut frame, &mut depth, v(5.0, 5.0, 1.0), v(8.0, 7.0, 1.0), 0x11223344);
    for x in 5..=8 {
        for y in 5..=7 {
            assert_eq!(pixel(&frame, x, y), (0x11, 0x22, 0x33, 0x44));
        }
    }
    let (mut frame, mut depth) = buffers();
    draw_rectangle(&mut frame, &mut depth, v(5.0, 5.0, 1.0), v(9.0, 9.0, 1.0), 0xffffffff);
    assert_eq!(pixel(&frame, 5, 7), (0xff, 0xff, 0xff, 0xff));
    assert_eq!(pixel(&frame, 7, 5), (0xff, 0xff, 0xff, 0xff));
    assert_eq!(pixel(&frame, 7, 7), (0, 0, 0, 0));
}

#[test]
fn clears_reset_the_buffers() {
    let (mut frame, mut depth) = buffers();
    draw_pixel(&mut frame, &mut depth, v(10.0, 10.0, 1.0), 0xffffffff);
    clear(&mut frame, &mut depth, 0x000000ff);
    assert_eq!(pixel(&frame, 10, 10), (0, 0, 0, 0xff));
    assert_eq!(depth[0].raw, 65536000000);
    depth[5] = Fx::from_i32(1);
    clear_depth(&mut depth);
    assert_eq!(depth[5].raw, 65536000000);
}

#[test]
fn clear_fade_scales_color_and_keeps_alpha() {
    let (mut frame, mut depth) = buffers();
    draw_pixel(&mut frame, &mut depth, v(10.0, 10.0, 1.0), 0x80808080);
    clear_fade(&mut frame, Fx::from_raw(32768));
    let (r, g, b, a) = pixel(&frame, 10, 10);
    assert!(r >= 0x3e && r <= 0x40, "faded red {r}");
    assert_eq!(r, g);
    assert_eq!(g, b);
    assert_eq!(a, 0x80);
}

#[test]
fn sprite_blits_bottom_up_and_scales() {
    let (mut frame, mut depth) = buffers();
    let sprite: Vec<Vec<u8>> = vec![vec![1, 0], vec![0, 1]];
    draw_sprite(&mut frame, &mut depth, v(10.0, 10.0, 1.0), &sprite, 2, 0xffffffff);
    // Source row 0 is the bottom row of the glyph, so the glyph's bottom
    // scanlines show the last source row's set bit (column 1).
    assert_eq!(pixel(&frame, 12, 10), (0xff, 0xff, 0xff, 0xff));
    assert_eq!(pixel(&frame, 13, 11), (0xff, 0xff, 0xff, 0xff));
    assert_eq!(pixel(&frame, 10, 12), (0xff, 0xff, 0xff, 0xff));
    assert_eq!(pixel(&frame, 11, 13), (0xff, 0xff, 0xff, 0xff));
    assert_eq!(pixel(&frame, 10, 10), (0, 0, 0, 0));
}

#[test]
fn text_advances_and_wraps_on_line_feed() {
    let (mut frame, mut depth) = buffers();
    // Font with three glyphs: byte 0 draws a dot, byte 10 is line feed,
    // byte 2 draws a dot.
    let dot: Vec<Vec<u8>> = vec![vec![1]];
    let empty: Vec<Vec<u8>> = vec![vec![0]];
    let mut font: Vec<Vec<Vec<u8>>> = Vec::new();
    for i in 0..11 {
        font.push(if i == 0 || i == 2 { dot.clone() } else { empty.clone() });
    }
    let text: Vec<u8> = vec![0, 10, 2];
    draw_text(&mut frame, &mut depth, v(50.0, 100.0, 1.0), &text, &font, 6, 1, 0xffffffff);
    assert_eq!(pixel(&frame, 50, 100), (0xff, 0xff, 0xff, 0xff));
    // After the line feed the column resets and the row moves down.
    assert_eq!(pixel(&frame, 50, 94), (0xff, 0xff, 0xff, 0xff));
    assert_eq!(pixel(&frame, 56, 100), (0, 0, 0, 0));
}

#[test]
fn lod_tiers_follow_distance() {
    let small = Fx::from_i32(1);
    let big = Fx::from_i32(2000);
    assert_eq!(lod_tier(Fx::from_i32(1000), small), Lod::Filled);
    assert_eq!(lod_tier(Fx::from_i32(5000), small), Lod::Wireframe);
    assert_eq!(lod_tier(Fx::from_i32(20000), small), Lod::Point);
    assert_eq!(lod_tier(Fx::from_i32(20000), big), Lod::Filled);
}

#[test]
fn distant_object_degrades_to_a_single_point() {
    let mesh = exo::meshes::hull_mesh();
    let far = exo::game::Object {
        mesh: std::rc::Rc::new(mesh),
        model: Mat4::from_translation(v(0.0, 0.0, -20000.0)),
        color: 0xffffffff,
        fill: 0x000000ff,
    };
    let camera = centered_camera();
    let (mut frame, mut depth) = buffers();
    draw_object(&mut frame, &mut depth, &far, &camera);
    let lit = frame.chunks(4).filter(|c| c[0] != 0).count();
    assert_eq!(lit, 1, "point tier writes exactly one pixel");
}

#[test]
fn near_object_renders_filled() {
    let mesh = exo::meshes::hull_mesh();
    let near = exo::game::Object {
        mesh: std::rc::Rc::new(mesh),
        model: Mat4::from_translation(v(0.0, 0.0, -20.0)),
        color: 0xffffffff,
        fill: 0x0000ffff,
    };
    let camera = centered_camera();
    let (mut frame, mut depth) = buffers();
    draw_object(&mut frame, &mut depth, &near, &camera);
    let blue = frame.chunks(4).filter(|c| c[0] == 0 && c[2] == 0xff).count();
    let white = frame.chunks(4).filter(|c| c[0] == 0xff).count();
    assert!(blue > 20, "filled interior present ({blue})");
    assert!(white > 20, "outline present ({white})");
}

#[test]
fn color_round_trip_is_byte_exact() {
    for c in [0x80402010u32, 0x00000000, 0xffffffff, 0x01fe7f80, 0xdeadbeef] {
        let parts = exo::graphics::color_to_float(c);
        let back = exo::graphics::float_to_color(parts);
        assert_eq!(back, c, "round trip of {c:#010x} returned {back:#010x}");
    }
    // And channel by channel over the whole byte range.
    for b in 0u32..=255 {
        let c = (b << 24) | (b << 16) | (b << 8) | b;
        let parts = exo::graphics::color_to_float(c);
        assert_eq!(exo::graphics::float_to_color(parts), c);
    }
}

#[test]
fn line_draw_lands_depth_tested_pixels() {
    let (mut frame, mut depth) = buffers();
    draw_line(&mut frame, &mut depth, v(10.0, 20.0, 1.0), v(20.0, 20.0, 1.0), 0xff00ffff);
    for x in 10..=20 {
        assert_eq!(pixel(&frame, x, 20), (0xff, 0, 0xff, 0xff));
    }
}

#[test]
fn hull_meshes_have_the_expected_shape() {
    let hull = exo::meshes::hull_mesh();
    assert_eq!(hull.len(), 18);
    assert_eq!(hull[0].len(), 6);
    let thr = exo::meshes::front_thruster_mesh();
    assert_eq!(thr.len(), 2);
    assert_eq!(thr[0].len(), 3);
}
