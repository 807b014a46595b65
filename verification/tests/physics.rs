use exo::fixed::Fx;
use exo::game::{update_ship_movement, Game, Thrust};

fn dt60() -> Fx {
    // 1/60 second.
    Fx::from_raw(65536 / 60)
}

#[test]
fn brake_assist_never_overrides_a_set_channel() {
    let mut g = Game::new();
    g.ship.brake = true;
    // Give the ship some motion so the assist has something to counter.
    g.ship.velocity = exo::math::Vec3 {
        x: Fx::from_i32(5),
        y: Fx::from_i32(-3),
        z: Fx::from_i32(7),
    };
    // The player holds one channel of the pitch pair.
    g.ship.thrust.set(Thrust::PitchDown, Fx::from_i32(2));
    let before_down = g.ship.thrust.get(Thrust::PitchDown).raw;
    let before_up = g.ship.thrust.get(Thrust::PitchUp).raw;
    update_ship_movement(&mut g.ship, dt60());
    assert_eq!(g.ship.thrust.get(Thrust::PitchDown).raw, before_down);
    assert_eq!(g.ship.thrust.get(Thrust::PitchUp).raw, before_up);
    // The unused linear pairs did receive counter-thrust.
    let side = g.ship.thrust.get(Thrust::Left).raw + g.ship.thrust.get(Thrust::Right).raw;
    assert!(side > 0, "brake assist populated an unused pair");
}

#[test]
fn jump_charge_completes_exactly_once() {
    let mut g = Game::new();
    g.ship.charging_jump = true;
    g.ship.jump_charge = g.ship.stats.jump_charge;
    let dt = Fx::from_raw(32768);  // half a second; charge time is 3 s
    let mut transitions = 0;
    let mut was_jumping = false;
    for _ in 0..20 {
        update_ship_movement(&mut g.ship, dt);
        if g.ship.jumping && !was_jumping {
            transitions += 1;
        }
        was_jumping = g.ship.jumping;
        if g.ship.jumping {
            assert!(!g.ship.charging_jump);
            for t in [
                Thrust::Left,
                Thrust::Right,
                Thrust::Up,
                Thrust::Down,
                Thrust::Front,
                Thrust::Back,
                Thrust::YawLeft,
                Thrust::YawRight,
                Thrust::PitchUp,
                Thrust::PitchDown,
                Thrust::RollCCW,
                Thrust::RollCW,
            ] {
                assert_eq!(g.ship.thrust.get(t).raw, 0, "thrust silent while jumping");
            }
        }
    }
    assert_eq!(transitions, 1);
    assert!(g.ship.jumping);
}

#[test]
fn charging_forces_brake_and_front_burn() {
    let mut g = Game::new();
    g.ship.charging_jump = true;
    g.ship.jump_charge = g.ship.stats.jump_charge;
    update_ship_movement(&mut g.ship, dt60());
    assert!(g.ship.brake);
    assert!(g.ship.charging_jump);
    // The front channel burns at twice the rated thrust while charging
    // (plus nothing else: the ship is at rest, so brake assist is idle).
    assert_eq!(g.ship.thrust.get(Thrust::Front).raw, 2 * g.ship.stats.thrust.raw);
}

#[test]
fn semi_implicit_euler_matches_closed_form() {
    let mut g = Game::new();
    g.ship.thrust.set(Thrust::Front, Fx::one());
    let dt = dt60();
    for _ in 0..60 {
        update_ship_movement(&mut g.ship, dt);
        g.ship.thrust.set(Thrust::Front, Fx::one());
    }
    // Closed-form semi-implicit Euler with a = 1 unit/s^2 forward
    // (ship-local forward is -z): v_n = -n a dt, p_n = -a dt^2 n(n+1)/2.
    let h = (65536.0 / 60.0f64).floor() / 65536.0;
    let v_expect = -60.0 * h;
    let p_expect = -h * h * (60.0 * 61.0 / 2.0);
    let v_got = g.ship.velocity.z.raw as f64 / 65536.0;
    let p_got = g.ship.position.z.raw as f64 / 65536.0;
    assert!((v_got - v_expect).abs() < 1e-3, "v {v_got} vs {v_expect}");
    assert!((p_got - p_expect).abs() < 1e-2, "p {p_got} vs {p_expect}");
    assert_eq!(g.ship.velocity.x.raw, 0);
    assert_eq!(g.ship.velocity.y.raw, 0);
}

#[test]
fn boost_feeds_the_front_channel_and_decays() {
    let mut g = Game::new();
    g.ship.boost = Fx::from_i32(400);
    let dt = dt60();
    update_ship_movement(&mut g.ship, dt);
    assert!(g.ship.thrust.get(Thrust::Front).raw >= 400 * 65536);
    assert!(g.ship.boost.raw < 400 * 65536, "boost decays");
    assert!(g.ship.boost.raw > 0);
}

#[test]
fn start_and_end_jump_snap_velocity() {
    let mut g = Game::new();
    exo::game::start_jump(&mut g.ship, dt60());
    let speed = -(g.ship.velocity.z.raw as f64) / 65536.0;
    assert!((speed - 18000.0).abs() < 1.0, "jump speed {speed}");
    exo::game::end_jump(&mut g.ship);
    let speed = -(g.ship.velocity.z.raw as f64) / 65536.0;
    assert!((speed - 100.0).abs() < 0.1, "post-jump speed {speed}");
}

#[test]
fn camera_trails_the_ship() {
    let mut g = Game::new();
    g.ship.position = exo::math::Vec3 {
        x: Fx::zero(),
        y: Fx::zero(),
        z: Fx::from_i32(-100),
    };
    exo::game::update_camera_position(&mut g.camera, &g.ship);
    // Desired position is ship + (0, 4, 10); one filter step moves 15%.
    let z = g.camera.position.z.raw as f64 / 65536.0;
    assert!((z - (-90.0 * 0.15)).abs() < 0.01, "camera z {z}");
    let y = g.camera.position.y.raw as f64 / 65536.0;
    assert!((y - 4.0 * 0.15).abs() < 0.01, "camera y {y}");
}

#[test]
fn game_update_runs_the_world() {
    let mut g = Game::new();
    g.ship.thrust.set(Thrust::Front, Fx::from_i32(40));
    g.particles.push(exo::game::Particle {
        object: exo::game::Object {
            mesh: std::rc::Rc::new(Vec::new()),
            model: exo::math::Mat4::identity(),
            color: 0xff00ffff,
            fill: 0,
        },
        lifetime: Fx::from_raw(655),  // expires this tick
    });
    g.particles.push(exo::game::Particle {
        object: exo::game::Object {
            mesh: std::rc::Rc::new(Vec::new()),
            model: exo::math::Mat4::identity(),
            color: 0xff00ffff,
            fill: 0,
        },
        lifetime: Fx::from_i32(10),
    });
    g.update(dt60());
    assert_eq!(g.particles.len(), 1, "expired particle culled");
    assert!(g.ship.velocity.z.raw < 0, "ship accelerated forward");
    for t in &g.ship.thrusters {
        assert_eq!(t.model.w_axis.z.raw, g.ship.position.z.raw);
    }
}

#[test]
fn game_draw_renders_the_ship() {
    let mut g = Game::new();
    let mut frame = vec![0u8; 320 * 240 * 4];
    let mut depth = vec![Fx::zero(); 320 * 240];
    g.ship.position = exo::math::Vec3 {
        x: Fx::zero(),
        y: Fx::zero(),
        z: Fx::from_i32(-30),
    };
    g.ship.hull.model = exo::math::Mat4::from_translation(g.ship.position);
    g.update(dt60());
    g.draw(&mut frame, &mut depth);
    let lit = frame.chunks(4).filter(|c| c[0] != 0 || c[1] != 0 || c[2] != 0).count();
    assert!(lit > 50, "the hull rasterized ({lit} pixels)");
}
