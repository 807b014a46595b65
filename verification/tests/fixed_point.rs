use exo::fixed::Fx;

#[test]
fn add_and_sub_are_exact_in_range() {
    let a = Fx::from_i32(3);
    let b = Fx::from_i32(-5);
    assert_eq!(a.add(b).raw, -2 * 65536);
    assert_eq!(a.sub(b).raw, 8 * 65536);
    assert_eq!(a.neg().raw, -3 * 65536);
}

#[test]
fn add_saturates_at_the_rails() {
    let top = Fx::from_raw(i64::MAX);
    assert_eq!(top.add(Fx::one()).raw, i64::MAX);
    let bottom = Fx::from_raw(i64::MIN);
    assert_eq!(bottom.sub(Fx::one()).raw, i64::MIN);
}

#[test]
fn mul_truncates_toward_zero() {
    // 1.5 * 1.5 = 2.25
    let a = Fx::from_raw(98304);
    assert_eq!(a.mul(a).raw, 147456);
    // (-1.5) * 1.5 = -2.25, truncated toward zero
    let b = Fx::from_raw(-98304);
    assert_eq!(b.mul(a).raw, -147456);
    // one third squared truncates low
    let third = Fx::from_raw(21845);
    assert_eq!(third.mul(third).raw, (21845i64 * 21845) / 65536);
}

#[test]
fn div_matches_f64_within_one_ulp() {
    let a = Fx::from_i32(10);
    let b = Fx::from_i32(3);
    let q = a.div(b);
    let expect = 10.0f64 / 3.0;
    let got = q.raw as f64 / 65536.0;
    assert!((got - expect).abs() < 1.0 / 65536.0 + 1e-9);
}

#[test]
fn trunc_rounds_toward_zero() {
    assert_eq!(Fx::from_raw(98304).trunc(), 1);
    assert_eq!(Fx::from_raw(-98304).trunc(), -1);
    assert_eq!(Fx::from_raw(-65536).trunc(), -1);
    assert_eq!(Fx::from_raw(65535).trunc(), 0);
}

#[test]
fn sqrt_is_the_floor_square_root() {
    assert_eq!(Fx::from_i32(4).sqrt().raw, 2 * 65536);
    assert_eq!(Fx::from_i32(2).sqrt().raw, 92681);
    assert_eq!(Fx::zero().sqrt().raw, 0);
}

#[test]
fn clamp_min_max_abs() {
    let lo = Fx::zero();
    let hi = Fx::from_i32(5);
    assert_eq!(Fx::from_i32(-3).clamp(lo, hi).raw, 0);
    assert_eq!(Fx::from_i32(9).clamp(lo, hi).raw, 5 * 65536);
    assert_eq!(Fx::from_i32(2).clamp(lo, hi).raw, 2 * 65536);
    assert_eq!(Fx::from_i32(-7).abs().raw, 7 * 65536);
    assert_eq!(Fx::from_i32(1).min(Fx::from_i32(2)).raw, 65536);
    assert_eq!(Fx::from_i32(1).max(Fx::from_i32(2)).raw, 131072);
}

#[test]
fn trig_is_close_to_the_real_functions() {
    for &x in &[0.0f64, 0.3, 0.7, 1.2, -0.9] {
        let fx = Fx::from_raw((x * 65536.0) as i64);
        let s = exo::trig::sin(fx).raw as f64 / 65536.0;
        let c = exo::trig::cos(fx).raw as f64 / 65536.0;
        assert!((s - x.sin()).abs() < 0.01, "sin({x}) = {s}");
        assert!((c - x.cos()).abs() < 0.01, "cos({x}) = {c}");
    }
    assert_eq!(exo::trig::sin(Fx::zero()).raw, 0);
    assert_eq!(exo::trig::cos(Fx::zero()).raw, 65536);
}

#[test]
fn atan2_covers_the_quadrants() {
    let one = Fx::one();
    let m1 = Fx::one().neg();
    let cases = [
        (one, one, std::f64::consts::FRAC_PI_4),
        (one, m1, 3.0 * std::f64::consts::FRAC_PI_4),
        (m1, one, -std::f64::consts::FRAC_PI_4),
        (m1, m1, -3.0 * std::f64::consts::FRAC_PI_4),
    ];
    for (y, x, expect) in cases {
        let got = exo::trig::atan2(y, x).raw as f64 / 65536.0;
        assert!((got - expect).abs() < 0.01, "atan2 {got} vs {expect}");
    }
    assert_eq!(exo::trig::atan2(Fx::zero(), Fx::zero()).raw, 0);
}

#[test]
fn log_error_formats_the_cause_chain() {
    let errors = vec![
        "surface lost".to_string(),
        "device removed".to_string(),
    ];
    let lines = exo::log_error("render", &errors);
    assert_eq!(lines.len(), 2);
    assert_eq!(lines[0], "render() failed: surface lost");
    assert_eq!(lines[1], "  Caused by: device removed");
}
