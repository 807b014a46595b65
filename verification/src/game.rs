//! Ship physics, camera follow, and the world state.
//!
//! The per-tick ship update is a fixed sequence of stages whose order is
//! load-bearing: the jump-charge state machine first (it may force the
//! brake and snap into the jump), then brake auto-counter-thrust into
//! unused channels, then the thrust blackout while jumping, and finally the
//! semi-implicit Euler integration of angular and linear motion. Each stage
//! is specified exactly, and the public update's contract is the
//! composition of the stage specifications.

use vstd::prelude::*;
use std::rc::Rc;

verus! {

use crate::fixed::{Fx, fx_add, fx_sub, fx_mul, fx_div, fx_neg, fx_max, fx_clamp};
use crate::math::{
    Vec3, Quat, Mat4, v3_scale, v3_add, v3_zero, v3, q_mul, q_rotate, q_conjugate, q_identity,
    q_from_euler_xyz, q_to_euler_xyz, q_look_at_rh, m4_from_quat_translation, m4_rigid_inverse,
    m4_from_translation,
};
use crate::transform::Camera;

/// A named thrust channel: three opposing linear pairs and three opposing
/// rotational pairs.
#[derive(Clone, Copy, PartialEq, Eq, Structural, Debug)]
pub enum Thrust {
    Left,
    Right,
    Up,
    Down,
    Front,
    Back,
    YawLeft,
    YawRight,
    PitchUp,
    PitchDown,
    RollCCW,
    RollCW,
}

/// The opposing channel of a thrust pair.
pub open spec fn opposite(t: Thrust) -> Thrust {
    match t {
        Thrust::Left => Thrust::Right,
        Thrust::Right => Thrust::Left,
        Thrust::Up => Thrust::Down,
        Thrust::Down => Thrust::Up,
        Thrust::Front => Thrust::Back,
        Thrust::Back => Thrust::Front,
        Thrust::YawLeft => Thrust::YawRight,
        Thrust::YawRight => Thrust::YawLeft,
        Thrust::PitchUp => Thrust::PitchDown,
        Thrust::PitchDown => Thrust::PitchUp,
        Thrust::RollCCW => Thrust::RollCW,
        Thrust::RollCW => Thrust::RollCCW,
    }
}

/// The magnitudes of all twelve thrust channels: a fixed struct indexed by
/// the closed [`Thrust`] enumeration.
#[derive(Clone, Copy, PartialEq, Eq, Structural, Debug)]
pub struct ThrustMap {
    pub left: Fx,
    pub right: Fx,
    pub up: Fx,
    pub down: Fx,
    pub front: Fx,
    pub back: Fx,
    pub yaw_left: Fx,
    pub yaw_right: Fx,
    pub pitch_up: Fx,
    pub pitch_down: Fx,
    pub roll_ccw: Fx,
    pub roll_cw: Fx,
}

/// The magnitude of one channel.
pub open spec fn tm_get(m: ThrustMap, t: Thrust) -> Fx {
    match t {
        Thrust::Left => m.left,
        Thrust::Right => m.right,
        Thrust::Up => m.up,
        Thrust::Down => m.down,
        Thrust::Front => m.front,
        Thrust::Back => m.back,
        Thrust::YawLeft => m.yaw_left,
        Thrust::YawRight => m.yaw_right,
        Thrust::PitchUp => m.pitch_up,
        Thrust::PitchDown => m.pitch_down,
        Thrust::RollCCW => m.roll_ccw,
        Thrust::RollCW => m.roll_cw,
    }
}

/// The map with one channel replaced.
pub open spec fn tm_set(m: ThrustMap, t: Thrust, v: Fx) -> ThrustMap {
    match t {
        Thrust::Left => ThrustMap { left: v, ..m },
        Thrust::Right => ThrustMap { right: v, ..m },
        Thrust::Up => ThrustMap { up: v, ..m },
        Thrust::Down => ThrustMap { down: v, ..m },
        Thrust::Front => ThrustMap { front: v, ..m },
        Thrust::Back => ThrustMap { back: v, ..m },
        Thrust::YawLeft => ThrustMap { yaw_left: v, ..m },
        Thrust::YawRight => ThrustMap { yaw_right: v, ..m },
        Thrust::PitchUp => ThrustMap { pitch_up: v, ..m },
        Thrust::PitchDown => ThrustMap { pitch_down: v, ..m },
        Thrust::RollCCW => ThrustMap { roll_ccw: v, ..m },
        Thrust::RollCW => ThrustMap { roll_cw: v, ..m },
    }
}

/// The map with every channel zero.
pub open spec fn tm_zero() -> ThrustMap {
    ThrustMap {
        left: Fx { raw: 0 },
        right: Fx { raw: 0 },
        up: Fx { raw: 0 },
        down: Fx { raw: 0 },
        front: Fx { raw: 0 },
        back: Fx { raw: 0 },
        yaw_left: Fx { raw: 0 },
        yaw_right: Fx { raw: 0 },
        pitch_up: Fx { raw: 0 },
        pitch_down: Fx { raw: 0 },
        roll_ccw: Fx { raw: 0 },
        roll_cw: Fx { raw: 0 },
    }
}

impl ThrustMap {
    pub fn zero() -> (r: ThrustMap)
        ensures
            r == tm_zero(),
    {
        ThrustMap {
            left: Fx::zero(),
            right: Fx::zero(),
            up: Fx::zero(),
            down: Fx::zero(),
            front: Fx::zero(),
            back: Fx::zero(),
            yaw_left: Fx::zero(),
            yaw_right: Fx::zero(),
            pitch_up: Fx::zero(),
            pitch_down: Fx::zero(),
            roll_ccw: Fx::zero(),
            roll_cw: Fx::zero(),
        }
    }

    pub fn get(&self, t: Thrust) -> (r: Fx)
        ensures
            r == tm_get(*self, t),
    {
        match t {
            Thrust::Left => self.left,
            Thrust::Right => self.right,
            Thrust::Up => self.up,
            Thrust::Down => self.down,
            Thrust::Front => self.front,
            Thrust::Back => self.back,
            Thrust::YawLeft => self.yaw_left,
            Thrust::YawRight => self.yaw_right,
            Thrust::PitchUp => self.pitch_up,
            Thrust::PitchDown => self.pitch_down,
            Thrust::RollCCW => self.roll_ccw,
            Thrust::RollCW => self.roll_cw,
        }
    }

    pub fn set(&mut self, t: Thrust, v: Fx)
        ensures
            *final(self) == tm_set(*old(self), t, v),
    {
        match t {
            Thrust::Left => self.left = v,
            Thrust::Right => self.right = v,
            Thrust::Up => self.up = v,
            Thrust::Down => self.down = v,
            Thrust::Front => self.front = v,
            Thrust::Back => self.back = v,
            Thrust::YawLeft => self.yaw_left = v,
            Thrust::YawRight => self.yaw_right = v,
            Thrust::PitchUp => self.pitch_up = v,
            Thrust::PitchDown => self.pitch_down = v,
            Thrust::RollCCW => self.roll_ccw = v,
            Thrust::RollCW => self.roll_cw = v,
        }
    }
}

/// A renderable object: a shared mesh, a model transform, an outline
/// color, and a fill color whose fully transparent value means
/// wireframe-only.
#[derive(Clone)]
pub struct Object {
    pub mesh: Rc<Vec<Vec<Vec3>>>,
    pub model: Mat4,
    pub color: u32,
    pub fill: u32,
}

/// An exhaust particle: an object and its remaining lifetime.
pub struct Particle {
    pub object: Object,
    pub lifetime: Fx,
}

/// An asteroid: an object spinning about a fixed axis.
pub struct Asteroid {
    pub object: Object,
    pub rotation_axis: Vec3,
    pub rotation_speed: Fx,
}

/// The ship's rated performance figures.
#[derive(Clone, Copy, PartialEq, Eq, Structural, Debug)]
pub struct ShipStats {
    pub thrust: Fx,
    pub angular_thrust: Fx,
    pub boost_strength: Fx,
    pub boost_duration: Fx,
    pub boost_cooldown: Fx,
    pub jump_speed: Fx,
    pub jump_charge: Fx,
}

/// The ship: world-space linear state, quaternion angular state, the
/// manual thrust channels, boost and jump state, the rendered hull and
/// per-channel thruster objects, and the rated stats.
pub struct Ship {
    pub position: Vec3,
    pub velocity: Vec3,
    pub acceleration: Vec3,
    pub rotation: Quat,
    pub angular_velocity: Quat,
    pub angular_acceleration: Quat,
    pub thrust: ThrustMap,
    pub boost: Fx,
    pub boost_cooldown: Fx,
    pub jumping: bool,
    pub charging_jump: bool,
    pub jump_charge: Fx,
    pub brake: bool,
    pub hull: Object,
    pub thrusters: Vec<Object>,
    pub stats: ShipStats,
}

/// What the integrator assumes of a ship: rated figures are sane (thrust
/// magnitudes nonnegative, a positive boost duration) and one thruster
/// object per channel.
pub open spec fn ship_wf(ship: Ship) -> bool {
    ship.stats.thrust.raw >= 0 && ship.stats.angular_thrust.raw >= 0
        && ship.stats.boost_duration.raw > 0 && ship.thrusters@.len() == 12
}

/// Jump launch: all manual thrust is dropped, a small constant roll rate is
/// set, and the velocity snaps to the jump speed along the ship's forward
/// axis.
pub open spec fn spec_start_jump(ship: Ship, dt: Fx) -> Ship {
    Ship {
        thrust: tm_zero(),
        angular_velocity: q_from_euler_xyz(Fx { raw: 0 }, Fx { raw: 0 }, dt),
        velocity: q_rotate(
            ship.rotation,
            Vec3 { x: Fx { raw: 0 }, y: Fx { raw: 0 }, z: fx_neg(ship.stats.jump_speed) },
        ),
        ..ship
    }
}

/// Jump end: the roll rate is cleared and the ship keeps a small fixed
/// forward speed.
pub open spec fn spec_end_jump(ship: Ship) -> Ship {
    Ship {
        angular_velocity: q_from_euler_xyz(Fx { raw: 0 }, Fx { raw: 0 }, Fx { raw: 0 }),
        velocity: q_rotate(
            ship.rotation,
            Vec3 { x: Fx { raw: 0 }, y: Fx { raw: 0 }, z: Fx { raw: (-6553600) as i64 } },
        ),
        ..ship
    }
}

/// The jump-charge stage: while charging, the brake is forced on, the
/// charge timer runs down (floored at zero), the front thruster burns at
/// twice the rated thrust, and on the tick the timer reaches exactly zero
/// the ship transitions to `jumping` and launches.
pub open spec fn spec_charge_stage(ship: Ship, dt: Fx) -> Ship {
    if ship.charging_jump {
        let s = Ship {
            brake: true,
            jump_charge: fx_max(Fx { raw: 0 }, fx_sub(ship.jump_charge, dt)),
            thrust: tm_set(
                ship.thrust,
                Thrust::Front,
                fx_mul(Fx { raw: 131072 }, ship.stats.thrust),
            ),
            ..ship
        };
        if s.jump_charge.raw == 0 {
            spec_start_jump(Ship { charging_jump: false, jumping: true, ..s }, dt)
        } else {
            s
        }
    } else {
        ship
    }
}

/// One conditional brake-assist write: if neither channel of the pair
/// holds manual thrust, the counter-thrust value is clamped into range and
/// written to `t`.
pub open spec fn brake_write(m: ThrustMap, t: Thrust, v: Fx, hi: Fx) -> ThrustMap {
    if tm_get(m, t).raw == 0 && tm_get(m, opposite(t)).raw == 0 {
        tm_set(m, t, fx_clamp(v, Fx { raw: 0 }, hi))
    } else {
        m
    }
}

/// The brake stage: counter-thrust proportional to the current angular and
/// linear velocity (gains 200 and 10) is written into channels whose
/// opposing pair is entirely unused, each clamped to the rated maximum;
/// the front channel alone may counter with up to twice the rated thrust.
pub open spec fn spec_brake_stage(ship: Ship) -> Ship {
    if ship.brake {
        let ab = v3_scale(
            q_to_euler_xyz(q_conjugate(ship.angular_velocity)),
            Fx { raw: 13107200i64 },
        );
        let at = ship.stats.angular_thrust;
        let m1 = brake_write(ship.thrust, Thrust::PitchUp, ab.x, at);
        let m2 = brake_write(m1, Thrust::PitchDown, fx_neg(ab.x), at);
        let m3 = brake_write(m2, Thrust::YawLeft, ab.y, at);
        let m4 = brake_write(m3, Thrust::YawRight, fx_neg(ab.y), at);
        let m5 = brake_write(m4, Thrust::RollCCW, ab.z, at);
        let m6 = brake_write(m5, Thrust::RollCW, fx_neg(ab.z), at);
        let bt = v3_scale(q_rotate(q_conjugate(ship.rotation), ship.velocity), Fx { raw: 655360 });
        let lt = ship.stats.thrust;
        let m7 = brake_write(m6, Thrust::Right, fx_neg(bt.x), lt);
        let m8 = brake_write(m7, Thrust::Left, bt.x, lt);
        let m9 = brake_write(m8, Thrust::Up, fx_neg(bt.y), lt);
        let m10 = brake_write(m9, Thrust::Down, bt.y, lt);
        let m11 = brake_write(m10, Thrust::Back, fx_neg(bt.z), lt);
        let m12 = brake_write(m11, Thrust::Front, bt.z, fx_mul(Fx { raw: 131072 }, lt));
        Ship { thrust: m12, ..ship }
    } else {
        ship
    }
}

/// The jump blackout stage: while jumping every manual channel reads zero.
pub open spec fn spec_jump_blackout_stage(ship: Ship) -> Ship {
    if ship.jumping {
        Ship { thrust: tm_zero(), ..ship }
    } else {
        ship
    }
}

/// The integration stage: angular acceleration from the rotational pairs
/// (scaled by `dt` twice, a deliberate parity-preserving simplification)
/// composes into the angular velocity and then the rotation; the boost
/// feeds the front channel and decays; linear acceleration from the linear
/// pairs is rotated into world space and integrated semi-implicitly
/// (velocity first, then position with the new velocity); the hull's model
/// transform is rederived from the new rotation and position.
pub open spec fn spec_integrate_stage(ship: Ship, dt: Fx) -> Ship {
    let m = ship.thrust;
    let aa = q_from_euler_xyz(
        fx_mul(fx_mul(fx_sub(tm_get(m, Thrust::PitchUp), tm_get(m, Thrust::PitchDown)), dt), dt),
        fx_mul(fx_mul(fx_sub(tm_get(m, Thrust::YawLeft), tm_get(m, Thrust::YawRight)), dt), dt),
        fx_mul(fx_mul(fx_sub(tm_get(m, Thrust::RollCCW), tm_get(m, Thrust::RollCW)), dt), dt),
    );
    let av = q_mul(ship.angular_velocity, aa);
    let rot = q_mul(ship.rotation, av);
    let m2 = tm_set(m, Thrust::Front, fx_add(tm_get(m, Thrust::Front), ship.boost));
    let boost = fx_max(
        Fx { raw: 0 },
        fx_sub(
            ship.boost,
            fx_mul(fx_div(ship.stats.boost_strength, ship.stats.boost_duration), dt),
        ),
    );
    let cooldown = fx_max(Fx { raw: 0 }, fx_sub(ship.boost_cooldown, dt));
    let accel = q_rotate(
        rot,
        Vec3 {
            x: fx_sub(tm_get(m2, Thrust::Right), tm_get(m2, Thrust::Left)),
            y: fx_sub(tm_get(m2, Thrust::Up), tm_get(m2, Thrust::Down)),
            z: fx_sub(tm_get(m2, Thrust::Back), tm_get(m2, Thrust::Front)),
        },
    );
    let vel = v3_add(ship.velocity, v3_scale(accel, dt));
    let pos = v3_add(ship.position, v3_scale(vel, dt));
    Ship {
        angular_acceleration: aa,
        angular_velocity: av,
        rotation: rot,
        thrust: m2,
        boost,
        boost_cooldown: cooldown,
        acceleration: accel,
        velocity: vel,
        position: pos,
        hull: Object {
            mesh: ship.hull.mesh,
            model: m4_from_quat_translation(rot, pos),
            color: ship.hull.color,
            fill: ship.hull.fill,
        },
        ..ship
    }
}

/// The whole per-tick ship update, in its load-bearing stage order.
pub open spec fn spec_update_ship(ship: Ship, dt: Fx) -> Ship {
    spec_integrate_stage(
        spec_jump_blackout_stage(spec_brake_stage(spec_charge_stage(ship, dt))),
        dt,
    )
}

/// The camera-follow update: the position is low-pass-filtered toward a
/// ship-relative offset with trailing factor 0.85, the orientation is a
/// fresh look-at from the smoothed position toward the ship using the
/// ship's local up (rotational lag comes only from positional lag), and
/// the model and view transforms are rederived together.
pub open spec fn spec_update_camera(camera: Camera, ship: Ship) -> Camera {
    let position_offset = v3(0, 262144, 655360);
    let trail = Fx { raw: 55706 };
    let pos = v3_add(
        v3_scale(camera.position, trail),
        v3_scale(
            v3_add(ship.position, q_rotate(ship.rotation, position_offset)),
            fx_sub(Fx { raw: 65536 }, trail),
        ),
    );
    let target = v3_add(ship.position, q_rotate(ship.rotation, v3_zero()));
    let up = q_rotate(ship.rotation, v3(0, 65536, 0));
    let rot = q_conjugate(q_look_at_rh(pos, target, up));
    let model = m4_from_quat_translation(rot, pos);
    Camera { position: pos, rotation: rot, fov: camera.fov, model, view: m4_rigid_inverse(model) }
}

/// Smooth the camera toward its ship-relative pose and rederive its
/// matrices.
pub fn update_camera_position(camera: &mut Camera, ship: &Ship)
    ensures
        *final(camera) == spec_update_camera(*old(camera), *ship),
{
    let position_offset = Vec3 {
        x: Fx::zero(),
        y: Fx::from_raw(262144),
        z: Fx::from_raw(655360),
    };
    let trail = Fx::from_raw(55706);
    let desired = ship.position.add(ship.rotation.rotate(position_offset));
    camera.position = camera.position.scale(trail).add(desired.scale(Fx::one().sub(trail)));
    let target = ship.position.add(ship.rotation.rotate(Vec3::zero()));
    let up = ship.rotation.rotate(Vec3 { x: Fx::zero(), y: Fx::one(), z: Fx::zero() });
    camera.rotation = Quat::look_at_rh(camera.position, target, up).inverse();
    camera.model = Mat4::from_quat_translation(camera.rotation, camera.position);
    camera.view = camera.model.rigid_inverse();
}

/// The channel drawn by thruster slot `i` of the ship's thruster list.
pub open spec fn channel_of_index(i: int) -> Thrust {
    if i == 0 {
        Thrust::Left
    } else if i == 1 {
        Thrust::Right
    } else if i == 2 {
        Thrust::Up
    } else if i == 3 {
        Thrust::Down
    } else if i == 4 {
        Thrust::Front
    } else if i == 5 {
        Thrust::Back
    } else if i == 6 {
        Thrust::YawLeft
    } else if i == 7 {
        Thrust::YawRight
    } else if i == 8 {
        Thrust::PitchUp
    } else if i == 9 {
        Thrust::PitchDown
    } else if i == 10 {
        Thrust::RollCCW
    } else {
        Thrust::RollCW
    }
}

/// Look the channel of a thruster slot up; slots past the last channel
/// read as the last channel.
pub fn index_channel(i: usize) -> (r: Thrust)
    ensures
        r == channel_of_index(i as int),
{
    if i == 0 {
        Thrust::Left
    } else if i == 1 {
        Thrust::Right
    } else if i == 2 {
        Thrust::Up
    } else if i == 3 {
        Thrust::Down
    } else if i == 4 {
        Thrust::Front
    } else if i == 5 {
        Thrust::Back
    } else if i == 6 {
        Thrust::YawLeft
    } else if i == 7 {
        Thrust::YawRight
    } else if i == 8 {
        Thrust::PitchUp
    } else if i == 9 {
        Thrust::PitchDown
    } else if i == 10 {
        Thrust::RollCCW
    } else {
        Thrust::RollCW
    }
}

/// One tick of a particle's life: the lifetime runs down, and below one
/// second of remaining life the particle's color dims with the remaining
/// lifetime as brightness.
pub open spec fn spec_dim_particle(p: Particle, dt: Fx) -> Particle {
    let lt = fx_sub(p.lifetime, dt);
    if lt.raw < 65536 {
        let br = fx_max(Fx { raw: 0 }, lt);
        let c = p.object.color;
        let dimmed = ((crate::graphics::byte_of_fx(
            fx_mul(br, crate::graphics::fx_of_byte(crate::graphics::color_byte(c, 0))),
        ) as u32) << 24) | ((crate::graphics::byte_of_fx(
            fx_mul(br, crate::graphics::fx_of_byte(crate::graphics::color_byte(c, 1))),
        ) as u32) << 16) | ((crate::graphics::byte_of_fx(
            fx_mul(br, crate::graphics::fx_of_byte(crate::graphics::color_byte(c, 2))),
        ) as u32) << 8) | (crate::graphics::byte_of_fx(
            crate::graphics::fx_of_byte(crate::graphics::color_byte(c, 3)),
        ) as u32);
        Particle {
            object: Object {
                mesh: p.object.mesh,
                model: p.object.model,
                color: dimmed,
                fill: p.object.fill,
            },
            lifetime: lt,
        }
    } else {
        Particle { object: p.object, lifetime: lt }
    }
}

/// The particles that survive a tick, in order.
pub open spec fn spec_live_particles(s: Seq<Particle>) -> Seq<Particle>
    decreases s.len(),
{
    if s.len() == 0 {
        Seq::empty()
    } else {
        spec_live_particles(s.drop_last()) + (if s.last().lifetime.raw > 0 {
            seq![s.last()]
        } else {
            Seq::empty()
        })
    }
}

/// Brake assist never overrides a player-set channel: if a channel of an
/// opposing pair holds nonzero manual thrust, the brake stage leaves both
/// members of that pair exactly as they were; counter-thrust only ever
/// lands in pairs that were entirely unused.
#[verifier::rlimit(50)]
pub proof fn lemma_brake_assist_non_override(ship: Ship, t: Thrust)
    requires
        tm_get(ship.thrust, t).raw != 0,
    ensures
        tm_get(spec_brake_stage(ship).thrust, t) == tm_get(ship.thrust, t),
        tm_get(spec_brake_stage(ship).thrust, opposite(t)) == tm_get(ship.thrust, opposite(t)),
{
    if ship.brake {
        let ab = v3_scale(
            q_to_euler_xyz(q_conjugate(ship.angular_velocity)),
            Fx { raw: 13107200i64 },
        );
        let at = ship.stats.angular_thrust;
        let m1 = brake_write(ship.thrust, Thrust::PitchUp, ab.x, at);
        lemma_brake_write_keeps(ship.thrust, Thrust::PitchUp, ab.x, at, t);
        let m2 = brake_write(m1, Thrust::PitchDown, fx_neg(ab.x), at);
        lemma_brake_write_keeps(m1, Thrust::PitchDown, fx_neg(ab.x), at, t);
        let m3 = brake_write(m2, Thrust::YawLeft, ab.y, at);
        lemma_brake_write_keeps(m2, Thrust::YawLeft, ab.y, at, t);
        let m4 = brake_write(m3, Thrust::YawRight, fx_neg(ab.y), at);
        lemma_brake_write_keeps(m3, Thrust::YawRight, fx_neg(ab.y), at, t);
        let m5 = brake_write(m4, Thrust::RollCCW, ab.z, at);
        lemma_brake_write_keeps(m4, Thrust::RollCCW, ab.z, at, t);
        let m6 = brake_write(m5, Thrust::RollCW, fx_neg(ab.z), at);
        lemma_brake_write_keeps(m5, Thrust::RollCW, fx_neg(ab.z), at, t);
        let bt = v3_scale(q_rotate(q_conjugate(ship.rotation), ship.velocity), Fx { raw: 655360 });
        let lt = ship.stats.thrust;
        let m7 = brake_write(m6, Thrust::Right, fx_neg(bt.x), lt);
        lemma_brake_write_keeps(m6, Thrust::Right, fx_neg(bt.x), lt, t);
        let m8 = brake_write(m7, Thrust::Left, bt.x, lt);
        lemma_brake_write_keeps(m7, Thrust::Left, bt.x, lt, t);
        let m9 = brake_write(m8, Thrust::Up, fx_neg(bt.y), lt);
        lemma_brake_write_keeps(m8, Thrust::Up, fx_neg(bt.y), lt, t);
        let m10 = brake_write(m9, Thrust::Down, bt.y, lt);
        lemma_brake_write_keeps(m9, Thrust::Down, bt.y, lt, t);
        let m11 = brake_write(m10, Thrust::Back, fx_neg(bt.z), lt);
        lemma_brake_write_keeps(m10, Thrust::Back, fx_neg(bt.z), lt, t);
        let m12 = brake_write(m11, Thrust::Front, bt.z, fx_mul(Fx { raw: 131072 }, lt));
        lemma_brake_write_keeps(m11, Thrust::Front, bt.z, fx_mul(Fx { raw: 131072 }, lt), t);
        assert(spec_brake_stage(ship).thrust == m12);
    }
}

/// One conditional brake-assist write leaves both members of a nonzero
/// channel's pair unchanged, whatever channel it targets.
proof fn lemma_brake_write_keeps(m: ThrustMap, t: Thrust, v: Fx, hi: Fx, c: Thrust)
    requires
        tm_get(m, c).raw != 0,
    ensures
        tm_get(brake_write(m, t, v, hi), c) == tm_get(m, c),
        tm_get(brake_write(m, t, v, hi), opposite(c)) == tm_get(m, opposite(c)),
        tm_get(brake_write(m, t, v, hi), c).raw != 0,
{
}

/// Brake assist never overrides a player-set channel through a whole
/// tick: outside the jump states, a channel of an opposing pair holding
/// nonzero manual thrust comes out of the update exactly as the brake
/// stage leaves it, which is unchanged; so does its opposite. (The front
/// channel is treated separately by the boost feed.)
#[verifier::rlimit(100)]
#[verifier::spinoff_prover]
pub proof fn lemma_brake_non_override_through_update(ship: Ship, dt: Fx, t: Thrust)
    requires
        !ship.charging_jump,
        !ship.jumping,
        t != Thrust::Front,
        tm_get(ship.thrust, t).raw != 0,
    ensures
        tm_get(spec_update_ship(ship, dt).thrust, t) == tm_get(ship.thrust, t),
        opposite(t) != Thrust::Front ==> tm_get(spec_update_ship(ship, dt).thrust, opposite(t))
            == tm_get(spec_brake_stage(ship).thrust, opposite(t)),
{
    let s1 = spec_charge_stage(ship, dt);
    assert(s1 == ship);
    lemma_brake_assist_non_override(ship, t);
    let s2 = spec_brake_stage(s1);
    let s3 = spec_jump_blackout_stage(s2);
    assert(s3 == s2);
    let m2 = tm_set(
        s3.thrust,
        Thrust::Front,
        fx_add(tm_get(s3.thrust, Thrust::Front), s3.boost),
    );
    let s4 = spec_integrate_stage(s3, dt);
    assert(s4.thrust == m2);
    assert(spec_update_ship(ship, dt) == s4);
    assert(tm_get(m2, t) == tm_get(s3.thrust, t));
    if opposite(t) != Thrust::Front {
        assert(tm_get(m2, opposite(t)) == tm_get(s3.thrust, opposite(t)));
    }
}

/// A charging tick with more than `dt` left on the timer only counts the
/// timer down: the ship stays charging and does not start jumping.
pub proof fn lemma_jump_charge_counts_down(ship: Ship, dt: Fx)
    requires
        ship.charging_jump,
        !ship.jumping,
        dt.raw >= 0,
        ship.jump_charge.raw > dt.raw,
    ensures
        spec_update_ship(ship, dt).charging_jump,
        !spec_update_ship(ship, dt).jumping,
        spec_update_ship(ship, dt).jump_charge == fx_sub(ship.jump_charge, dt),
{
}

/// The tick on which the charge timer reaches zero transitions to
/// `Jumping`, and clears `ChargingJump`: the transition happens on exactly
/// one tick.
pub proof fn lemma_jump_charge_completes(ship: Ship, dt: Fx)
    requires
        ship.charging_jump,
        0 < ship.jump_charge.raw <= dt.raw,
    ensures
        spec_update_ship(ship, dt).jumping,
        !spec_update_ship(ship, dt).charging_jump,
{
}

/// Once jumping, a tick never re-enters charging and never ends the jump
/// by itself (only the explicit jump end does); and with no boost left,
/// every manual thrust channel reads zero after the tick.
#[verifier::rlimit(50)]
pub proof fn lemma_jumping_is_stable(ship: Ship, dt: Fx)
    requires
        ship.jumping,
        !ship.charging_jump,
    ensures
        spec_update_ship(ship, dt).jumping,
        !spec_update_ship(ship, dt).charging_jump,
        ship.boost.raw == 0 ==> forall|t: Thrust|
            tm_get(#[trigger] spec_update_ship(ship, dt).thrust, t).raw == 0,
{
    let s1 = spec_charge_stage(ship, dt);
    assert(s1 == ship);
    let s2 = spec_brake_stage(s1);
    assert(s2.jumping && !s2.charging_jump && s2.boost == ship.boost);
    let s3 = spec_jump_blackout_stage(s2);
    assert(s3.thrust == tm_zero() && s3.jumping && !s3.charging_jump && s3.boost == ship.boost);
    let s4 = spec_integrate_stage(s3, dt);
    assert(s4 == spec_update_ship(ship, dt));
    assert(s4.jumping && !s4.charging_jump);
    if ship.boost.raw == 0 {
        let front = fx_add(tm_get(tm_zero(), Thrust::Front), ship.boost);
        assert(front.raw == 0);
        assert(s4.thrust == tm_set(tm_zero(), Thrust::Front, front));
        assert forall|t: Thrust| tm_get(#[trigger] spec_update_ship(ship, dt).thrust, t).raw
            == 0 by {
            assert(tm_get(tm_set(tm_zero(), Thrust::Front, front), t).raw == 0);
        }
    }
}

/// One tick is exactly one semi-implicit Euler step in the
/// pure-translation scenario (no brake, charge or jump, no boost, identity
/// attitude, no rotational thrust): the acceleration is the ship-local
/// thrust-pair difference, the velocity integrates the acceleration, and
/// the position integrates the *new* velocity.
#[verifier::rlimit(50)]
pub proof fn lemma_semi_implicit_euler_step(ship: Ship, dt: Fx)
    requires
        !ship.brake,
        !ship.charging_jump,
        !ship.jumping,
        ship.boost.raw == 0,
        ship.rotation == q_identity(),
        ship.angular_velocity == q_identity(),
        tm_get(ship.thrust, Thrust::PitchUp) == tm_get(ship.thrust, Thrust::PitchDown),
        tm_get(ship.thrust, Thrust::YawLeft) == tm_get(ship.thrust, Thrust::YawRight),
        tm_get(ship.thrust, Thrust::RollCCW) == tm_get(ship.thrust, Thrust::RollCW),
    ensures
        spec_update_ship(ship, dt).rotation == q_identity(),
        spec_update_ship(ship, dt).acceleration == (Vec3 {
            x: fx_sub(tm_get(ship.thrust, Thrust::Right), tm_get(ship.thrust, Thrust::Left)),
            y: fx_sub(tm_get(ship.thrust, Thrust::Up), tm_get(ship.thrust, Thrust::Down)),
            z: fx_sub(tm_get(ship.thrust, Thrust::Back), tm_get(ship.thrust, Thrust::Front)),
        }),
        spec_update_ship(ship, dt).velocity == v3_add(
            ship.velocity,
            v3_scale(spec_update_ship(ship, dt).acceleration, dt),
        ),
        spec_update_ship(ship, dt).position == v3_add(
            ship.position,
            v3_scale(spec_update_ship(ship, dt).velocity, dt),
        ),
{
    let s1 = spec_charge_stage(ship, dt);
    assert(s1 == ship);
    let s2 = spec_brake_stage(s1);
    assert(s2 == ship);
    let s3 = spec_jump_blackout_stage(s2);
    assert(s3 == ship);
    let m = ship.thrust;
    let zero = Fx { raw: 0 };
    assert(fx_sub(tm_get(m, Thrust::PitchUp), tm_get(m, Thrust::PitchDown)) == zero);
    assert(fx_sub(tm_get(m, Thrust::YawLeft), tm_get(m, Thrust::YawRight)) == zero);
    assert(fx_sub(tm_get(m, Thrust::RollCCW), tm_get(m, Thrust::RollCW)) == zero);
    crate::fixed::lemma_fx_mul_zero(dt);
    assert(fx_mul(fx_mul(zero, dt), dt) == zero);
    crate::math::lemma_q_from_euler_zero();
    let aa = q_from_euler_xyz(zero, zero, zero);
    assert(aa == q_identity());
    crate::math::lemma_q_mul_identity(q_identity());
    assert(q_mul(q_identity(), aa) == q_identity());
    let m2 = tm_set(m, Thrust::Front, fx_add(tm_get(m, Thrust::Front), ship.boost));
    assert(m2 == m);
    let local = Vec3 {
        x: fx_sub(tm_get(m, Thrust::Right), tm_get(m, Thrust::Left)),
        y: fx_sub(tm_get(m, Thrust::Up), tm_get(m, Thrust::Down)),
        z: fx_sub(tm_get(m, Thrust::Back), tm_get(m, Thrust::Front)),
    };
    crate::math::lemma_q_rotate_identity(local);
    assert(q_rotate(q_identity(), local) == local);
    let s4 = spec_integrate_stage(ship, dt);
    assert(s4.rotation == q_identity());
    assert(s4.acceleration == local);
    assert(s4 == spec_update_ship(ship, dt));
}

/// Launch the jump: drop all manual thrust, set the scripted roll rate,
/// snap the velocity to the jump speed along the ship's forward axis.
pub fn start_jump(ship: &mut Ship, dt: Fx)
    ensures
        *final(ship) == spec_start_jump(*old(ship), dt),
{
    ship.thrust = ThrustMap::zero();
    ship.angular_velocity = Quat::from_euler_xyz(Fx::zero(), Fx::zero(), dt);
    let back = Vec3 { x: Fx::zero(), y: Fx::zero(), z: ship.stats.jump_speed.neg() };
    ship.velocity = ship.rotation.rotate(back);
}

/// End the jump: clear the roll rate and keep a small fixed forward speed.
pub fn end_jump(ship: &mut Ship)
    ensures
        *final(ship) == spec_end_jump(*old(ship)),
{
    ship.angular_velocity = Quat::from_euler_xyz(Fx::zero(), Fx::zero(), Fx::zero());
    let fwd = Vec3 { x: Fx::zero(), y: Fx::zero(), z: Fx::from_raw(-6553600) };
    ship.velocity = ship.rotation.rotate(fwd);
}

/// One conditional brake-assist write into a channel whose pair is unused.
fn brake_write_exec(m: &mut ThrustMap, t: Thrust, v: Fx, hi: Fx)
    requires
        hi.raw >= 0,
    ensures
        *final(m) == brake_write(*old(m), t, v, hi),
{
    let a = m.get(t);
    let b = m.get(opposite_exec(t));
    if a.raw == 0 && b.raw == 0 {
        m.set(t, v.clamp(Fx::zero(), hi));
    }
}

/// The opposing channel of a thrust pair.
pub fn opposite_exec(t: Thrust) -> (r: Thrust)
    ensures
        r == opposite(t),
{
    match t {
        Thrust::Left => Thrust::Right,
        Thrust::Right => Thrust::Left,
        Thrust::Up => Thrust::Down,
        Thrust::Down => Thrust::Up,
        Thrust::Front => Thrust::Back,
        Thrust::Back => Thrust::Front,
        Thrust::YawLeft => Thrust::YawRight,
        Thrust::YawRight => Thrust::YawLeft,
        Thrust::PitchUp => Thrust::PitchDown,
        Thrust::PitchDown => Thrust::PitchUp,
        Thrust::RollCCW => Thrust::RollCW,
        Thrust::RollCW => Thrust::RollCCW,
    }
}

/// Advance the ship one tick: jump charge, brake assist, jump blackout,
/// then semi-implicit integration, exactly as the stage specifications
/// compose.
pub fn update_ship_movement(ship: &mut Ship, dt: Fx)
    requires
        ship_wf(*old(ship)),
    ensures
        *final(ship) == spec_update_ship(*old(ship), dt),
        ship_wf(*final(ship)),
{
    // Jump-charge state machine.
    if ship.charging_jump {
        ship.brake = true;
        ship.jump_charge = Fx::zero().max(ship.jump_charge.sub(dt));
        let burn = Fx::from_raw(131072).mul(ship.stats.thrust);
        ship.thrust.set(Thrust::Front, burn);
        if ship.jump_charge.raw == 0 {
            ship.charging_jump = false;
            ship.jumping = true;
            start_jump(ship, dt);
        }
    }
    assert(*ship == spec_charge_stage(*old(ship), dt));

    // Brake auto-counter-thrust into unused channels.
    if ship.brake {
        let ab = ship.angular_velocity.inverse().to_euler_xyz().scale(Fx::from_raw(200 * 65536));
        let at = ship.stats.angular_thrust;
        brake_write_exec(&mut ship.thrust, Thrust::PitchUp, ab.x, at);
        brake_write_exec(&mut ship.thrust, Thrust::PitchDown, ab.x.neg(), at);
        brake_write_exec(&mut ship.thrust, Thrust::YawLeft, ab.y, at);
        brake_write_exec(&mut ship.thrust, Thrust::YawRight, ab.y.neg(), at);
        brake_write_exec(&mut ship.thrust, Thrust::RollCCW, ab.z, at);
        brake_write_exec(&mut ship.thrust, Thrust::RollCW, ab.z.neg(), at);
        let bt = ship.rotation.inverse().rotate(ship.velocity).scale(Fx::from_raw(655360));
        let lt = ship.stats.thrust;
        brake_write_exec(&mut ship.thrust, Thrust::Right, bt.x.neg(), lt);
        brake_write_exec(&mut ship.thrust, Thrust::Left, bt.x, lt);
        brake_write_exec(&mut ship.thrust, Thrust::Up, bt.y.neg(), lt);
        brake_write_exec(&mut ship.thrust, Thrust::Down, bt.y, lt);
        brake_write_exec(&mut ship.thrust, Thrust::Back, bt.z.neg(), lt);
        let fhi = Fx::from_raw(131072).mul(lt);
        proof {
            crate::fixed::lemma_fx_mul_nonneg(Fx { raw: 131072 }, lt);
        }
        brake_write_exec(&mut ship.thrust, Thrust::Front, bt.z, fhi);
    }
    assert(*ship == spec_brake_stage(spec_charge_stage(*old(ship), dt)));

    // Thrust blackout during the jump animation.
    if ship.jumping {
        ship.thrust = ThrustMap::zero();
    }

    // Angular integration: thrust-pair differences, scaled by dt twice,
    // composed into angular velocity, composed into rotation.
    let m = ship.thrust;
    let aa = Quat::from_euler_xyz(
        m.get(Thrust::PitchUp).sub(m.get(Thrust::PitchDown)).mul(dt).mul(dt),
        m.get(Thrust::YawLeft).sub(m.get(Thrust::YawRight)).mul(dt).mul(dt),
        m.get(Thrust::RollCCW).sub(m.get(Thrust::RollCW)).mul(dt).mul(dt),
    );
    ship.angular_acceleration = aa;
    ship.angular_velocity = ship.angular_velocity.mul(aa);
    ship.rotation = ship.rotation.mul(ship.angular_velocity);

    // Boost feeds the front channel and decays.
    ship.thrust.set(Thrust::Front, m.get(Thrust::Front).add(ship.boost));
    let decay = ship.stats.boost_strength.div(ship.stats.boost_duration).mul(dt);
    ship.boost = Fx::zero().max(ship.boost.sub(decay));
    ship.boost_cooldown = Fx::zero().max(ship.boost_cooldown.sub(dt));

    // Linear semi-implicit Euler integration in world space.
    let m2 = ship.thrust;
    let local = Vec3 {
        x: m2.get(Thrust::Right).sub(m2.get(Thrust::Left)),
        y: m2.get(Thrust::Up).sub(m2.get(Thrust::Down)),
        z: m2.get(Thrust::Back).sub(m2.get(Thrust::Front)),
    };
    ship.acceleration = ship.rotation.rotate(local);
    ship.velocity = ship.velocity.add(ship.acceleration.scale(dt));
    ship.position = ship.position.add(ship.velocity.scale(dt));

    // The hull transform is rederived from the new pose.
    ship.hull.model = Mat4::from_quat_translation(ship.rotation, ship.position);
}


/// Re-center every star on the camera: each star keeps its mesh and
/// colors and adopts a pure translation to the given position.
pub fn follow_stars(stars: &mut Vec<Object>, position: Vec3)
    ensures
        final(stars)@.len() == old(stars)@.len(),
        forall|i: int|
            0 <= i < old(stars)@.len() ==> final(stars)@[i] == (Object {
                mesh: old(stars)@[i].mesh,
                model: m4_from_translation(position),
                color: old(stars)@[i].color,
                fill: old(stars)@[i].fill,
            }),
{
    let star_model = Mat4::from_translation(position);
    let mut i: usize = 0;
    while i < stars.len()
        invariant
            i <= stars@.len(),
            stars@.len() == old(stars)@.len(),
            star_model == m4_from_translation(position),
            forall|j: int| i <= j < old(stars)@.len() ==> stars@[j] == old(stars)@[j],
            forall|j: int|
                0 <= j < i ==> stars@[j] == (Object {
                    mesh: old(stars)@[j].mesh,
                    model: star_model,
                    color: old(stars)@[j].color,
                    fill: old(stars)@[j].fill,
                }),
        decreases stars@.len() - i,
    {
        stars[i].model = star_model;
        i = i + 1;
    }
}

/// Age every particle by `dt`, dim the ones in their final second, and
/// drop the expired ones, keeping order.
pub fn age_particles(particles: &mut Vec<Particle>, dt: Fx)
    ensures
        final(particles)@ == spec_live_particles(
            old(particles)@.map_values(|p: Particle| spec_dim_particle(p, dt)),
        ),
{
    let ghost old_particles = particles@;
    let mut live: Vec<Particle> = Vec::new();
    let n = particles.len();
    let mut i: usize = 0;
    while i < n
        invariant
            i <= n,
            n == old_particles.len(),
            particles@ == old_particles,
            live@ == spec_live_particles(
                old_particles.subrange(0, i as int).map_values(
                    |p: Particle| spec_dim_particle(p, dt),
                ),
            ),
        decreases n - i,
    {
        let ghost pre = old_particles.subrange(0, i as int).map_values(
            |p: Particle| spec_dim_particle(p, dt),
        );
        let ghost cur = old_particles.subrange(0, i + 1).map_values(
            |p: Particle| spec_dim_particle(p, dt),
        );
        proof {
            assert(cur.drop_last() =~= pre);
            assert(cur.last() == spec_dim_particle(old_particles[i as int], dt));
        }
        let p = &particles[i];
        let lt = p.lifetime.sub(dt);
        let color = if lt.raw < 65536 {
            let (r, g, b, a) = crate::graphics::color_to_float(p.object.color);
            let br = Fx::zero().max(lt);
            crate::graphics::float_to_color((br.mul(r), br.mul(g), br.mul(b), a))
        } else {
            p.object.color
        };
        let np = Particle {
            object: Object {
                mesh: p.object.mesh.clone(),
                model: p.object.model,
                color,
                fill: p.object.fill,
            },
            lifetime: lt,
        };
        proof {
            assert(np.object.mesh == old_particles[i as int].object.mesh);
            assert(np == spec_dim_particle(old_particles[i as int], dt));
        }
        if lt.raw > 0 {
            live.push(np);
        }
        i = i + 1;
    }
    proof {
        assert(old_particles.subrange(0, n as int) =~= old_particles);
    }
    *particles = live;
}

/// Give every thruster object the hull's current model transform.
pub fn sync_thrusters(ship: &mut Ship)
    requires
        ship_wf(*old(ship)),
    ensures
        ship_wf(*final(ship)),
        ship_eq_except_thrusters(*final(ship), *old(ship)),
        final(ship).thrusters@.len() == old(ship).thrusters@.len(),
        forall|i: int|
            0 <= i < old(ship).thrusters@.len() ==> final(ship).thrusters@[i] == (Object {
                mesh: old(ship).thrusters@[i].mesh,
                model: old(ship).hull.model,
                color: old(ship).thrusters@[i].color,
                fill: old(ship).thrusters@[i].fill,
            }),
{
    let ghost snap = *ship;
    let hull_model = ship.hull.model;
    let mut i: usize = 0;
    while i < ship.thrusters.len()
        invariant
            i <= ship.thrusters@.len(),
            ship.thrusters@.len() == old(ship).thrusters@.len(),
            hull_model == old(ship).hull.model,
            ship_eq_except_thrusters(*ship, snap),
            snap == *old(ship),
            ship_wf(*ship),
            forall|j: int|
                i <= j < old(ship).thrusters@.len() ==> ship.thrusters@[j] == old(
                    ship,
                ).thrusters@[j],
            forall|j: int|
                0 <= j < i ==> ship.thrusters@[j] == (Object {
                    mesh: old(ship).thrusters@[j].mesh,
                    model: hull_model,
                    color: old(ship).thrusters@[j].color,
                    fill: old(ship).thrusters@[j].fill,
                }),
        decreases ship.thrusters@.len() - i,
    {
        ship.thrusters[i].model = hull_model;
        i = i + 1;
    }
}

/// Spin every asteroid about its axis by its rate times `dt`.
pub fn spin_asteroids(asteroids: &mut Vec<Asteroid>, dt: Fx)
    ensures
        final(asteroids)@.len() == old(asteroids)@.len(),
        forall|i: int|
            0 <= i < old(asteroids)@.len() ==> final(asteroids)@[i].object == (Object {
                mesh: old(asteroids)@[i].object.mesh,
                model: crate::math::m4_mul(
                    old(asteroids)@[i].object.model,
                    m4_from_quat_translation(
                        crate::math::q_from_axis_angle(
                            old(asteroids)@[i].rotation_axis,
                            fx_mul(old(asteroids)@[i].rotation_speed, dt),
                        ),
                        v3_zero(),
                    ),
                ),
                color: old(asteroids)@[i].object.color,
                fill: old(asteroids)@[i].object.fill,
            }) && final(asteroids)@[i].rotation_axis == old(asteroids)@[i].rotation_axis
                && final(asteroids)@[i].rotation_speed == old(asteroids)@[i].rotation_speed,
{
    let mut i: usize = 0;
    while i < asteroids.len()
        invariant
            i <= asteroids@.len(),
            asteroids@.len() == old(asteroids)@.len(),
            forall|j: int| i <= j < old(asteroids)@.len() ==> asteroids@[j] == old(asteroids)@[j],
            forall|j: int|
                0 <= j < i ==> asteroids@[j].object == (Object {
                    mesh: old(asteroids)@[j].object.mesh,
                    model: crate::math::m4_mul(
                        old(asteroids)@[j].object.model,
                        m4_from_quat_translation(
                            crate::math::q_from_axis_angle(
                                old(asteroids)@[j].rotation_axis,
                                fx_mul(old(asteroids)@[j].rotation_speed, dt),
                            ),
                            v3_zero(),
                        ),
                    ),
                    color: old(asteroids)@[j].object.color,
                    fill: old(asteroids)@[j].object.fill,
                }) && asteroids@[j].rotation_axis == old(asteroids)@[j].rotation_axis
                    && asteroids@[j].rotation_speed == old(asteroids)@[j].rotation_speed,
        decreases asteroids@.len() - i,
    {
        let axis = asteroids[i].rotation_axis;
        let speed = asteroids[i].rotation_speed;
        let spin = Mat4::from_axis_angle(axis, speed.mul(dt));
        let m = asteroids[i].object.model.mul(&spin);
        asteroids[i].object.model = m;
        i = i + 1;
    }
}

/// The whole world: the ship, the camera that follows it, and the scenery
/// collections the renderer draws each frame. Scenery is generated by the
/// surrounding application (star, dust and asteroid placement draw from a
/// random source); the world itself owns only their per-tick bookkeeping.
pub struct Game {
    pub ship: Ship,
    pub camera: Camera,
    pub stars: Vec<Object>,
    pub dust: Vec<Object>,
    pub particles: Vec<Particle>,
    pub asteroids: Vec<Asteroid>,
}

/// All ship state except the thruster objects agrees between two ships.
pub open spec fn ship_eq_except_thrusters(a: Ship, b: Ship) -> bool {
    a.position == b.position && a.velocity == b.velocity && a.acceleration == b.acceleration
        && a.rotation == b.rotation && a.angular_velocity == b.angular_velocity
        && a.angular_acceleration == b.angular_acceleration && a.thrust == b.thrust && a.boost
        == b.boost && a.boost_cooldown == b.boost_cooldown && a.jumping == b.jumping
        && a.charging_jump == b.charging_jump && a.jump_charge == b.jump_charge && a.brake
        == b.brake && a.hull == b.hull && a.stats == b.stats
}

impl Game {
    /// A fresh world: the ship at rest at the origin with its rated stats
    /// and hull, an identity camera with a 90 degree field of view, and
    /// empty scenery collections for the application to populate.
    pub fn new() -> (g: Game)
        ensures
            ship_wf(g.ship),
            g.ship.position == v3_zero(),
            g.ship.velocity == v3_zero(),
            g.ship.acceleration == v3_zero(),
            g.ship.rotation == q_identity(),
            g.ship.angular_velocity == q_identity(),
            g.ship.angular_acceleration == q_identity(),
            g.ship.thrust == tm_zero(),
            g.ship.boost.raw == 0,
            g.ship.boost_cooldown.raw == 0,
            !g.ship.jumping,
            !g.ship.charging_jump,
            g.ship.jump_charge.raw == -65536,
            !g.ship.brake,
            g.ship.stats == (ShipStats {
                thrust: Fx { raw: 2621440 },
                angular_thrust: Fx { raw: 327680 },
                boost_strength: Fx { raw: 52428800 },
                boost_duration: Fx { raw: 32768 },
                boost_cooldown: Fx { raw: 65536 },
                jump_speed: Fx { raw: 1179648000 },
                jump_charge: Fx { raw: 196608 },
            }),
            g.ship.hull.model == crate::math::m4_identity(),
            g.ship.hull.color == 0xffffffffu32,
            g.ship.hull.fill == 0x000000ffu32,
            g.ship.hull.mesh@.map_values(|p: Vec<Vec3>| p@) == crate::meshes::spec_hull_mesh(),
            g.ship.thrusters@.len() == 12,
            forall|i: int| #![trigger g.ship.thrusters@[i]]
                0 <= i < 12 ==> g.ship.thrusters@[i].model == crate::math::m4_identity()
                    && g.ship.thrusters@[i].color == 0xff00ffffu32,
            g.ship.thrusters@[4].mesh@.map_values(|p: Vec<Vec3>| p@)
                == crate::meshes::spec_front_thruster_mesh(),
            g.ship.thrusters@[4].fill == 0x000000ffu32,
            forall|i: int| #![trigger g.ship.thrusters@[i]]
                0 <= i < 12 && i != 4 ==> g.ship.thrusters@[i].mesh@.len() == 0
                    && g.ship.thrusters@[i].fill == 0x00000000u32,
            g.camera.position == v3_zero(),
            g.camera.rotation == q_identity(),
            g.camera.fov.raw == 5898240,
            g.camera.model == crate::math::m4_identity(),
            g.camera.view == crate::math::m4_identity(),
            g.stars@.len() == 0,
            g.dust@.len() == 0,
            g.particles@.len() == 0,
            g.asteroids@.len() == 0,
    {
        let hull = Object {
            mesh: Rc::new(crate::meshes::hull_mesh()),
            model: Mat4::identity(),
            color: 0xffffffffu32,
            fill: 0x000000ffu32,
        };
        let mut thrusters: Vec<Object> = Vec::new();
        let mut i: usize = 0;
        while i < 12
            invariant
                i <= 12,
                thrusters@.len() == i,
                forall|j: int| #![trigger thrusters@[j]]
                    0 <= j < i ==> thrusters@[j].model == crate::math::m4_identity()
                        && thrusters@[j].color == 0xff00ffffu32,
                i > 4 ==> thrusters@[4].mesh@.map_values(|p: Vec<Vec3>| p@)
                    == crate::meshes::spec_front_thruster_mesh(),
                i > 4 ==> thrusters@[4].fill == 0x000000ffu32,
                forall|j: int| #![trigger thrusters@[j]]
                    0 <= j < i && j != 4 ==> thrusters@[j].mesh@.len() == 0
                        && thrusters@[j].fill == 0x00000000u32,
            decreases 12 - i,
        {
            if i == 4 {
                thrusters.push(
                    Object {
                        mesh: Rc::new(crate::meshes::front_thruster_mesh()),
                        model: Mat4::identity(),
                        color: 0xff00ffffu32,
                        fill: 0x000000ffu32,
                    },
                );
            } else {
                let empty_mesh: Vec<Vec<Vec3>> = Vec::new();
                let o = Object {
                    mesh: Rc::new(empty_mesh),
                    model: Mat4::identity(),
                    color: 0xff00ffffu32,
                    fill: 0x00000000u32,
                };
                proof {
                    assert(o.mesh@.len() == 0);
                }
                thrusters.push(o);
            }
            i = i + 1;
        }
        let ghost tsnap = thrusters@;
        let ship = Ship {
            position: Vec3::zero(),
            velocity: Vec3::zero(),
            acceleration: Vec3::zero(),
            rotation: Quat::identity(),
            angular_velocity: Quat::identity(),
            angular_acceleration: Quat::identity(),
            thrust: ThrustMap::zero(),
            boost: Fx::zero(),
            boost_cooldown: Fx::zero(),
            jumping: false,
            charging_jump: false,
            jump_charge: Fx::from_raw(-65536),
            brake: false,
            hull,
            thrusters,
            stats: ShipStats {
                thrust: Fx::from_raw(2621440),
                angular_thrust: Fx::from_raw(327680),
                boost_strength: Fx::from_raw(52428800),
                boost_duration: Fx::from_raw(32768),
                boost_cooldown: Fx::from_raw(65536),
                jump_speed: Fx::from_raw(1179648000),
                jump_charge: Fx::from_raw(196608),
            },
        };
        let camera = Camera {
            position: Vec3::zero(),
            rotation: Quat::identity(),
            fov: Fx::from_raw(5898240),
            model: Mat4::identity(),
            view: Mat4::identity(),
        };
        let game = Game {
            ship,
            camera,
            stars: Vec::new(),
            dust: Vec::new(),
            particles: Vec::new(),
            asteroids: Vec::new(),
        };
        proof {
            assert(game.ship.thrusters@ == tsnap);
            assert forall|i: int| #![trigger game.ship.thrusters@[i]]
                0 <= i < 12 implies game.ship.thrusters@[i].model == crate::math::m4_identity()
                && game.ship.thrusters@[i].color == 0xff00ffffu32 by {
                assert(tsnap[i].model == crate::math::m4_identity());
                assert(game.ship.thrusters@[i] == tsnap[i]);
            }
            assert forall|i: int| #![trigger game.ship.thrusters@[i]]
                0 <= i < 12 && i != 4 implies game.ship.thrusters@[i].mesh@.len() == 0
                && game.ship.thrusters@[i].fill == 0x00000000u32 by {
                assert(tsnap[i].mesh@.len() == 0 && tsnap[i].fill == 0x00000000u32);
                assert(game.ship.thrusters@[i] == tsnap[i]);
            }
        }
        game
    }

    /// One world tick: the ship integrates, the camera follows the new
    /// pose, the star shell re-centers on the camera, particles age and
    /// dim and the dead ones are dropped, the thruster objects adopt the
    /// new hull transform, and every asteroid spins about its axis.
    /// Random-driven scenery replenishment (dust and exhaust) is the
    /// caller's step.
    #[verifier::rlimit(100)]
    pub fn update(&mut self, dt: Fx)
        requires
            ship_wf(old(self).ship),
        ensures
            ship_wf(final(self).ship),
            ship_eq_except_thrusters(final(self).ship, spec_update_ship(old(self).ship, dt)),
            final(self).ship.thrusters@.len() == old(self).ship.thrusters@.len(),
            forall|i: int|
                0 <= i < old(self).ship.thrusters@.len() ==> final(self).ship.thrusters@[i]
                    == (Object {
                    mesh: old(self).ship.thrusters@[i].mesh,
                    model: final(self).ship.hull.model,
                    color: old(self).ship.thrusters@[i].color,
                    fill: old(self).ship.thrusters@[i].fill,
                }),
            final(self).camera == spec_update_camera(
                old(self).camera,
                spec_update_ship(old(self).ship, dt),
            ),
            final(self).stars@.len() == old(self).stars@.len(),
            forall|i: int|
                0 <= i < old(self).stars@.len() ==> final(self).stars@[i] == (Object {
                    mesh: old(self).stars@[i].mesh,
                    model: m4_from_translation(final(self).camera.position),
                    color: old(self).stars@[i].color,
                    fill: old(self).stars@[i].fill,
                }),
            final(self).dust == old(self).dust,
            final(self).particles@ == spec_live_particles(
                old(self).particles@.map_values(|p: Particle| spec_dim_particle(p, dt)),
            ),
            final(self).asteroids@.len() == old(self).asteroids@.len(),
            forall|i: int|
                0 <= i < old(self).asteroids@.len() ==> final(self).asteroids@[i].object
                    == (Object {
                    mesh: old(self).asteroids@[i].object.mesh,
                    model: crate::math::m4_mul(
                        old(self).asteroids@[i].object.model,
                        m4_from_quat_translation(
                            crate::math::q_from_axis_angle(
                                old(self).asteroids@[i].rotation_axis,
                                fx_mul(old(self).asteroids@[i].rotation_speed, dt),
                            ),
                            v3_zero(),
                        ),
                    ),
                    color: old(self).asteroids@[i].object.color,
                    fill: old(self).asteroids@[i].object.fill,
                }) && final(self).asteroids@[i].rotation_axis == old(
                    self,
                ).asteroids@[i].rotation_axis && final(self).asteroids@[i].rotation_speed == old(
                    self,
                ).asteroids@[i].rotation_speed,
    {
        update_ship_movement(&mut self.ship, dt);
        update_camera_position(&mut self.camera, &self.ship);
        follow_stars(&mut self.stars, self.camera.position);
        age_particles(&mut self.particles, dt);
        sync_thrusters(&mut self.ship);
        spin_asteroids(&mut self.asteroids, dt);
    }
}

/// The draw effect of one object under the level-of-detail policy.
pub open spec fn obj_effect(fb: Seq<u8>, db: Seq<Fx>, o: Object, camera: Camera) -> (
    Seq<u8>,
    Seq<Fx>,
) {
    crate::graphics::spec_object_effect(
        fb,
        db,
        o.mesh@.map_values(|p: Vec<Vec3>| p@),
        o.model,
        o.color,
        o.fill,
        camera,
    )
}

/// The draw effect of the first `k` objects of a list.
pub open spec fn spec_objects_effect(fb: Seq<u8>, db: Seq<Fx>, objs: Seq<Object>, camera: Camera, k: nat) -> (Seq<u8>, Seq<Fx>)
    decreases k,
{
    if k == 0 || objs.len() < k {
        (fb, db)
    } else {
        let prev = spec_objects_effect(fb, db, objs, camera, (k - 1) as nat);
        obj_effect(prev.0, prev.1, objs[k - 1], camera)
    }
}

/// The draw effect of the first `k` dust motes: a motion trail line when
/// the ship moves fast enough, then the mote itself.
pub open spec fn spec_dust_effect(fb: Seq<u8>, db: Seq<Fx>, dust: Seq<Object>, velocity: Vec3, camera: Camera, k: nat) -> (Seq<u8>, Seq<Fx>)
    decreases k,
{
    if k == 0 || dust.len() < k {
        (fb, db)
    } else {
        let prev = spec_dust_effect(fb, db, dust, velocity, camera, (k - 1) as nat);
        let d = dust[k - 1];
        let trail = v3_scale(crate::math::v3_neg(velocity), Fx { raw: 328 });
        let origin = crate::math::m4_transform_point(d.model, v3_zero());
        let with_trail: (Seq<u8>, Seq<Fx>) = if crate::math::v3_len(trail).raw > 6553 {
            crate::graphics::spec_put_list(
                prev.0,
                prev.1,
                crate::graphics::with_color(
                    crate::graphics::spec_bresenham(
                        crate::transform::spec_world_to_screen(origin, camera),
                        crate::transform::spec_world_to_screen(v3_add(origin, trail), camera),
                    ),
                    d.color,
                ),
            )
        } else {
            prev
        };
        obj_effect(with_trail.0, with_trail.1, d, camera)
    }
}

/// The draw effect of the first `k` particles.
pub open spec fn spec_particles_effect(fb: Seq<u8>, db: Seq<Fx>, particles: Seq<Particle>, camera: Camera, k: nat) -> (Seq<u8>, Seq<Fx>)
    decreases k,
{
    if k == 0 || particles.len() < k {
        (fb, db)
    } else {
        let prev = spec_particles_effect(fb, db, particles, camera, (k - 1) as nat);
        obj_effect(prev.0, prev.1, particles[k - 1].object, camera)
    }
}

/// The draw effect of the first `k` asteroids.
pub open spec fn spec_asteroids_effect(fb: Seq<u8>, db: Seq<Fx>, asteroids: Seq<Asteroid>, camera: Camera, k: nat) -> (Seq<u8>, Seq<Fx>)
    decreases k,
{
    if k == 0 || asteroids.len() < k {
        (fb, db)
    } else {
        let prev = spec_asteroids_effect(fb, db, asteroids, camera, (k - 1) as nat);
        obj_effect(prev.0, prev.1, asteroids[k - 1].object, camera)
    }
}

/// The draw effect of the first `k` thruster objects: a thruster shows
/// only while its channel burns at more than a hundredth of a unit.
pub open spec fn spec_thrusters_effect(fb: Seq<u8>, db: Seq<Fx>, thrusters: Seq<Object>, tm: ThrustMap, camera: Camera, k: nat) -> (Seq<u8>, Seq<Fx>)
    decreases k,
{
    if k == 0 || thrusters.len() < k {
        (fb, db)
    } else {
        let prev = spec_thrusters_effect(fb, db, thrusters, tm, camera, (k - 1) as nat);
        if tm_get(tm, channel_of_index(k - 1)).raw > 655 {
            obj_effect(prev.0, prev.1, thrusters[k - 1], camera)
        } else {
            prev
        }
    }
}

/// The draw effect of one projected world-space line.
pub open spec fn spec_line3d_effect(fb: Seq<u8>, db: Seq<Fx>, v0: Vec3, v1: Vec3, camera: Camera, color: u32) -> (Seq<u8>, Seq<Fx>) {
    crate::graphics::spec_put_list(
        fb,
        db,
        crate::graphics::with_color(
            crate::graphics::spec_bresenham(
                crate::transform::spec_world_to_screen(v0, camera),
                crate::transform::spec_world_to_screen(v1, camera),
            ),
            color,
        ),
    )
}

/// The whole frame draw: the cleared (or, during a jump, faded) buffers,
/// then stars, dust with trails, particles, asteroids, the hull, the
/// burning thrusters, and the three axis indicator lines, in order.
pub open spec fn spec_game_draw(fb: Seq<u8>, db: Seq<Fx>, g: Game) -> (Seq<u8>, Seq<Fx>) {
    let cleared: (Seq<u8>, Seq<Fx>) = if g.ship.jumping {
        (
            crate::graphics::spec_faded_frame(fb, Fx { raw: 62259 }),
            crate::graphics::spec_cleared_depth(),
        )
    } else {
        (crate::graphics::spec_cleared_frame(0x000000ffu32), crate::graphics::spec_cleared_depth())
    };
    let s1 = spec_objects_effect(cleared.0, cleared.1, g.stars@, g.camera, g.stars@.len());
    let s2 = spec_dust_effect(s1.0, s1.1, g.dust@, g.ship.velocity, g.camera, g.dust@.len());
    let s3 = spec_particles_effect(s2.0, s2.1, g.particles@, g.camera, g.particles@.len());
    let s4 = spec_asteroids_effect(s3.0, s3.1, g.asteroids@, g.camera, g.asteroids@.len());
    let s5 = obj_effect(s4.0, s4.1, g.ship.hull, g.camera);
    let s6 = spec_thrusters_effect(
        s5.0,
        s5.1,
        g.ship.thrusters@,
        g.ship.thrust,
        g.camera,
        g.ship.thrusters@.len(),
    );
    let p = g.ship.position;
    let s7 = spec_line3d_effect(s6.0, s6.1, p, v3_add(p, v3(65536, 0, 0)), g.camera, 0xff0000ffu32);
    let s8 = spec_line3d_effect(s7.0, s7.1, p, v3_add(p, v3(0, 65536, 0)), g.camera, 0x00ff00ffu32);
    spec_line3d_effect(s8.0, s8.1, p, v3_add(p, v3(0, 0, 65536)), g.camera, 0x0000ffffu32)
}

impl Game {
    /// Draw one frame: clear (or fade during a jump), then the scene far
    /// and near, the ship, its burning thrusters, and the axis indicator
    /// lines. The HUD overlay is the surrounding application's pass.
    #[verifier::rlimit(100)]
    pub fn draw(&self, frame: &mut Vec<u8>, depth: &mut Vec<Fx>)
        requires
            crate::graphics::buffers_ok(old(frame)@, old(depth)@),
        ensures
            (final(frame)@, final(depth)@) == spec_game_draw(old(frame)@, old(depth)@, *self),
            crate::graphics::buffers_ok(final(frame)@, final(depth)@),
    {
        if self.ship.jumping {
            crate::graphics::clear_depth(depth);
            crate::graphics::clear_fade(frame, Fx::from_raw(62259));
        } else {
            crate::graphics::clear(frame, depth, 0x000000ffu32);
        }
        let ghost cleared: (Seq<u8>, Seq<Fx>) = (frame@, depth@);

        let mut i: usize = 0;
        let n = self.stars.len();
        while i < n
            invariant
                i <= n,
                n == self.stars@.len(),
                crate::graphics::buffers_ok(frame@, depth@),
                (frame@, depth@) == spec_objects_effect(
                    cleared.0,
                    cleared.1,
                    self.stars@,
                    self.camera,
                    i as nat,
                ),
            decreases n - i,
        {
            crate::graphics::draw_object(frame, depth, &self.stars[i], &self.camera);
            i = i + 1;
        }
        let ghost s1: (Seq<u8>, Seq<Fx>) = (frame@, depth@);

        let mut i: usize = 0;
        let n = self.dust.len();
        while i < n
            invariant
                i <= n,
                n == self.dust@.len(),
                crate::graphics::buffers_ok(frame@, depth@),
                (frame@, depth@) == spec_dust_effect(
                    s1.0,
                    s1.1,
                    self.dust@,
                    self.ship.velocity,
                    self.camera,
                    i as nat,
                ),
            decreases n - i,
        {
            let trail = self.ship.velocity.neg().scale(Fx::from_raw(328));
            let origin = self.dust[i].model.transform_point(Vec3::zero());
            if trail.len().raw > 6553 {
                crate::graphics::draw_line_3d(
                    frame,
                    depth,
                    origin,
                    origin.add(trail),
                    &self.camera,
                    self.dust[i].color,
                );
            }
            crate::graphics::draw_object(frame, depth, &self.dust[i], &self.camera);
            i = i + 1;
        }
        let ghost s2: (Seq<u8>, Seq<Fx>) = (frame@, depth@);

        let mut i: usize = 0;
        let n = self.particles.len();
        while i < n
            invariant
                i <= n,
                n == self.particles@.len(),
                crate::graphics::buffers_ok(frame@, depth@),
                (frame@, depth@) == spec_particles_effect(
                    s2.0,
                    s2.1,
                    self.particles@,
                    self.camera,
                    i as nat,
                ),
            decreases n - i,
        {
            crate::graphics::draw_object(frame, depth, &self.particles[i].object, &self.camera);
            i = i + 1;
        }
        let ghost s3: (Seq<u8>, Seq<Fx>) = (frame@, depth@);

        let mut i: usize = 0;
        let n = self.asteroids.len();
        while i < n
            invariant
                i <= n,
                n == self.asteroids@.len(),
                crate::graphics::buffers_ok(frame@, depth@),
                (frame@, depth@) == spec_asteroids_effect(
                    s3.0,
                    s3.1,
                    self.asteroids@,
                    self.camera,
                    i as nat,
                ),
            decreases n - i,
        {
            crate::graphics::draw_object(frame, depth, &self.asteroids[i].object, &self.camera);
            i = i + 1;
        }

        crate::graphics::draw_object(frame, depth, &self.ship.hull, &self.camera);
        let ghost s5: (Seq<u8>, Seq<Fx>) = (frame@, depth@);

        let mut i: usize = 0;
        let n = self.ship.thrusters.len();
        while i < n
            invariant
                i <= n,
                n == self.ship.thrusters@.len(),
                crate::graphics::buffers_ok(frame@, depth@),
                (frame@, depth@) == spec_thrusters_effect(
                    s5.0,
                    s5.1,
                    self.ship.thrusters@,
                    self.ship.thrust,
                    self.camera,
                    i as nat,
                ),
            decreases n - i,
        {
            let t = index_channel(i);
            if self.ship.thrust.get(t).raw > 655 {
                crate::graphics::draw_object(frame, depth, &self.ship.thrusters[i], &self.camera);
            }
            i = i + 1;
        }

        let p = self.ship.position;
        crate::graphics::draw_line_3d(
            frame,
            depth,
            p,
            p.add(Vec3 { x: Fx::one(), y: Fx::zero(), z: Fx::zero() }),
            &self.camera,
            0xff0000ffu32,
        );
        crate::graphics::draw_line_3d(
            frame,
            depth,
            p,
            p.add(Vec3 { x: Fx::zero(), y: Fx::one(), z: Fx::zero() }),
            &self.camera,
            0x00ff00ffu32,
        );
        crate::graphics::draw_line_3d(
            frame,
            depth,
            p,
            p.add(Vec3 { x: Fx::zero(), y: Fx::zero(), z: Fx::one() }),
            &self.camera,
            0x0000ffffu32,
        );
    }
}

} // verus!
