//! The particle data model and its closed-form kinematics.
//!
//! A particle's velocity decomposition, damping and acceleration
//! coefficients, gravity and lifetime are all fixed at spawn; the only
//! time-varying field is `duration_fraction`, the normalized age. The
//! render transform is recomputed each tick from the absolute age alone
//! (`age = duration_fraction * duration`), so the pose at any tick is
//! independent of tick rate and accumulates no drift.

use crate::fixed::{
    absi, decay_factor, decay_fp, fmul, half_fp, lemma_decay_at_zero, lemma_fmul_mag,
    lemma_fmul_unit, lemma_fmul_zero, mul_fp, sdiv, SCALE,
};
use crate::vecmath::{Rgba, Vec2, Vec3, Vec4};
use vstd::prelude::*;

verus! {

/// Largest world-coordinate magnitude, in milli-units.
pub const POS_MAX: i64 = 1_000_000_000_000;

/// Largest magnitude of a direction component (unit-ish vectors).
pub const DIR_MAX: i64 = 4_000;

/// Largest magnitude of a packed velocity component.
pub const VEL_MAX: i64 = 4_000_000_000;

/// Largest magnitude of a gravity vector component.
pub const GRAV_MAX: i64 = 10_000_000;

/// Largest magnitude of a sampled coefficient (speeds, damping,
/// acceleration, scale, color channels).
pub const COEFF_MAX: i64 = 1_000_000;

/// Largest magnitude of a curve-modulated attribute: interpolation can
/// overshoot the keyframe values by at most one value span.
pub const ATTR_MAX: i64 = 4_000_000;

/// Largest particle lifetime, in milli-seconds.
pub const DUR_MAX: i64 = 1_000_000;

/// Largest tick delta, in milli-seconds.
pub const DELTA_MAX: i64 = 100_000;

/// Largest absolute age the kinematics are stated for; one tick can never
/// push a live particle past `DUR_MAX + DELTA_MAX + 1`.
pub const AGE_MAX: i64 = 2_000_000;

/// One simulated particle.
#[derive(Clone, Copy, Debug, PartialEq, Eq, Structural)]
pub struct Particle {
    pub start_pos: Vec3,
    pub direction: Vec2,
    pub scale: i64,
    pub gravity: Vec3,
    pub duration: i64,
    pub duration_fraction: i64,
    pub velocity: Vec4,
    pub color: Rgba,
    pub frame: u32,
    pub linear_acceleration: i64,
    pub linear_damp: i64,
    pub angular_acceleration: i64,
    pub angular_damp: i64,
}

/// A render pose: translation, uniform scale and a local-Z rotation angle
/// in milli-radians.
#[derive(Clone, Copy, Debug, PartialEq, Eq, Structural)]
pub struct Transform {
    pub translation: Vec3,
    pub scale: i64,
    pub rotation: i64,
}

/// Per-particle render data, recomputed every tick and consumed by the
/// rendering stage; never independently simulated.
#[derive(Clone, Copy, Debug, PartialEq, Eq, Structural)]
pub struct InstanceData {
    pub transform: Transform,
    pub color: Rgba,
    pub duration_fraction: i64,
}

impl Particle {
    /// Magnitude bounds that spawning establishes and every tick
    /// preserves; all kinematic contracts assume them.
    pub open spec fn wf(self) -> bool {
        &&& self.start_pos.wf_within(POS_MAX as int)
        &&& self.direction.wf_within(DIR_MAX as int)
        &&& absi(self.scale as int) <= ATTR_MAX as int
        &&& self.gravity.wf_within(GRAV_MAX as int)
        &&& 1 <= self.duration <= DUR_MAX
        &&& 0 <= self.duration_fraction
        &&& absi(self.velocity.x as int) <= VEL_MAX as int
        &&& absi(self.velocity.y as int) <= VEL_MAX as int
        &&& absi(self.velocity.z as int) <= VEL_MAX as int
        &&& absi(self.velocity.w as int) <= VEL_MAX as int
        &&& self.color.wf_within(ATTR_MAX as int)
        &&& 0 <= self.linear_damp <= COEFF_MAX
        &&& 0 <= self.angular_damp <= COEFF_MAX
        &&& absi(self.linear_acceleration as int) <= COEFF_MAX as int
        &&& absi(self.angular_acceleration as int) <= COEFF_MAX as int
    }

    /// Absolute age in milli-seconds: the normalized age scaled back by
    /// the sampled lifetime.
    pub open spec fn age(self) -> int {
        fmul(self.duration_fraction as int, self.duration as int)
    }

    /// A particle is live until its normalized age reaches one.
    pub open spec fn live(self) -> bool {
        self.duration_fraction < SCALE
    }
}

/// Exponential-style decay of the initial linear velocity by age.
pub open spec fn lin_damp_factor(p: Particle) -> int {
    decay_factor(fmul(p.linear_damp as int, p.age()))
}

pub open spec fn ang_damp_factor(p: Particle) -> int {
    decay_factor(fmul(p.angular_damp as int, p.age()))
}

/// Speed gained linearly with age along the spawn direction.
pub open spec fn lin_accel_term(p: Particle) -> int {
    fmul(p.linear_acceleration as int, p.age())
}

pub open spec fn ang_accel_term(p: Particle) -> int {
    fmul(p.angular_acceleration as int, p.age())
}

/// Instantaneous linear velocity: the spawn velocity decayed by damping
/// plus the acceleration contribution along the spawn direction (which
/// has no z component).
pub open spec fn eff_velocity_x(p: Particle) -> int {
    fmul(p.velocity.x as int, lin_damp_factor(p)) + fmul(p.direction.x as int, lin_accel_term(p))
}

pub open spec fn eff_velocity_y(p: Particle) -> int {
    fmul(p.velocity.y as int, lin_damp_factor(p)) + fmul(p.direction.y as int, lin_accel_term(p))
}

pub open spec fn eff_velocity_z(p: Particle) -> int {
    fmul(p.velocity.z as int, lin_damp_factor(p))
}

/// Instantaneous angular velocity.
pub open spec fn eff_angular(p: Particle) -> int {
    fmul(p.velocity.w as int, ang_damp_factor(p)) + ang_accel_term(p)
}

/// Displacement since spawn under constant-acceleration kinematics:
/// `v_eff * age + (g * age^2) / 2`.
pub open spec fn displacement_x(p: Particle) -> int {
    fmul(eff_velocity_x(p), p.age()) + sdiv(fmul(fmul(p.gravity.x as int, p.age()), p.age()), 2)
}

pub open spec fn displacement_y(p: Particle) -> int {
    fmul(eff_velocity_y(p), p.age()) + sdiv(fmul(fmul(p.gravity.y as int, p.age()), p.age()), 2)
}

pub open spec fn displacement_z(p: Particle) -> int {
    fmul(eff_velocity_z(p), p.age()) + sdiv(fmul(fmul(p.gravity.z as int, p.age()), p.age()), 2)
}

/// Rotation about the local up axis accumulated over the age.
pub open spec fn rotation_of(p: Particle) -> int {
    fmul(eff_angular(p), p.age())
}

/// The render pose the kinematics produce for a particle at its current
/// age: an absolute offset from the spawn position, never an increment.
pub open spec fn transform_of(p: Particle) -> Transform {
    Transform {
        translation: Vec3 {
            x: (p.start_pos.x as int + displacement_x(p)) as i64,
            y: (p.start_pos.y as int + displacement_y(p)) as i64,
            z: (p.start_pos.z as int + displacement_z(p)) as i64,
        },
        scale: p.scale,
        rotation: rotation_of(p) as i64,
    }
}

impl Particle {
    /// Computes the render pose from the current normalized age by the
    /// closed-form integration `transform_of`.
    pub fn get_transform(&self) -> (r: Transform)
        requires
            self.wf(),
            self.age() <= AGE_MAX as int,
        ensures
            r == transform_of(*self),
    {
        let p = *self;
        proof {
            lemma_fmul_mag(
                p.duration_fraction as int,
                p.duration as int,
                p.duration_fraction as int,
                DUR_MAX as int,
            );
            assert(p.duration_fraction as int * p.duration as int >= 0) by (nonlinear_arith)
                requires
                    p.duration_fraction >= 0,
                    p.duration >= 1,
            ;
            assert(p.age() >= 0);
        }
        let age = mul_fp(p.duration_fraction, p.duration);
        proof {
            lemma_fmul_mag(p.linear_damp as int, age as int, COEFF_MAX as int, AGE_MAX as int);
            lemma_fmul_mag(p.angular_damp as int, age as int, COEFF_MAX as int, AGE_MAX as int);
            assert(p.linear_damp as int * age as int >= 0) by (nonlinear_arith)
                requires
                    p.linear_damp >= 0,
                    age >= 0,
            ;
            assert(p.angular_damp as int * age as int >= 0) by (nonlinear_arith)
                requires
                    p.angular_damp >= 0,
                    age >= 0,
            ;
        }
        let lin_factor = decay_fp(mul_fp(p.linear_damp, age));
        let ang_factor = decay_fp(mul_fp(p.angular_damp, age));
        proof {
            lemma_fmul_mag(
                p.linear_acceleration as int,
                age as int,
                COEFF_MAX as int,
                AGE_MAX as int,
            );
            lemma_fmul_mag(
                p.angular_acceleration as int,
                age as int,
                COEFF_MAX as int,
                AGE_MAX as int,
            );
        }
        let lin_accel = mul_fp(p.linear_acceleration, age);
        let ang_accel = mul_fp(p.angular_acceleration, age);
        proof {
            lemma_fmul_mag(p.velocity.x as int, lin_factor as int, VEL_MAX as int, SCALE as int);
            lemma_fmul_mag(p.velocity.y as int, lin_factor as int, VEL_MAX as int, SCALE as int);
            lemma_fmul_mag(p.velocity.z as int, lin_factor as int, VEL_MAX as int, SCALE as int);
            lemma_fmul_mag(p.velocity.w as int, ang_factor as int, VEL_MAX as int, SCALE as int);
            lemma_fmul_mag(p.direction.x as int, lin_accel as int, DIR_MAX as int, 2_000_000_000);
            lemma_fmul_mag(p.direction.y as int, lin_accel as int, DIR_MAX as int, 2_000_000_000);
        }
        let vx = mul_fp(p.velocity.x, lin_factor) + mul_fp(p.direction.x, lin_accel);
        let vy = mul_fp(p.velocity.y, lin_factor) + mul_fp(p.direction.y, lin_accel);
        let vz = mul_fp(p.velocity.z, lin_factor);
        let vw = mul_fp(p.velocity.w, ang_factor) + ang_accel;
        proof {
            lemma_fmul_mag(vx as int, age as int, 12_000_000_000, AGE_MAX as int);
            lemma_fmul_mag(vy as int, age as int, 12_000_000_000, AGE_MAX as int);
            lemma_fmul_mag(vz as int, age as int, 12_000_000_000, AGE_MAX as int);
            lemma_fmul_mag(vw as int, age as int, 12_000_000_000, AGE_MAX as int);
            lemma_fmul_mag(p.gravity.x as int, age as int, GRAV_MAX as int, AGE_MAX as int);
            lemma_fmul_mag(p.gravity.y as int, age as int, GRAV_MAX as int, AGE_MAX as int);
            lemma_fmul_mag(p.gravity.z as int, age as int, GRAV_MAX as int, AGE_MAX as int);
        }
        let gx = mul_fp(p.gravity.x, age);
        let gy = mul_fp(p.gravity.y, age);
        let gz = mul_fp(p.gravity.z, age);
        proof {
            lemma_fmul_mag(gx as int, age as int, 20_000_000_000, AGE_MAX as int);
            lemma_fmul_mag(gy as int, age as int, 20_000_000_000, AGE_MAX as int);
            lemma_fmul_mag(gz as int, age as int, 20_000_000_000, AGE_MAX as int);
        }
        let half_gx = half_fp(mul_fp(gx, age));
        let half_gy = half_fp(mul_fp(gy, age));
        let half_gz = half_fp(mul_fp(gz, age));
        proof {
            crate::fixed::lemma_sdiv_mag(fmul(gx as int, age as int), 2, 40_000_000_000_000);
            crate::fixed::lemma_sdiv_mag(fmul(gy as int, age as int), 2, 40_000_000_000_000);
            crate::fixed::lemma_sdiv_mag(fmul(gz as int, age as int), 2, 40_000_000_000_000);
        }
        let dx = mul_fp(vx, age) + half_gx;
        let dy = mul_fp(vy, age) + half_gy;
        let dz = mul_fp(vz, age) + half_gz;
        let rot = mul_fp(vw, age);
        let r = Transform {
            translation: Vec3 {
                x: p.start_pos.x + dx,
                y: p.start_pos.y + dy,
                z: p.start_pos.z + dz,
            },
            scale: p.scale,
            rotation: rot,
        };
        proof {
            assert(r.translation.x as int == p.start_pos.x as int + displacement_x(p));
            assert(r.translation.y as int == p.start_pos.y as int + displacement_y(p));
            assert(r.translation.z as int == p.start_pos.z as int + displacement_z(p));
            assert(r.rotation as int == rotation_of(p));
        }
        r
    }
}

impl InstanceData {
    /// The render data a freshly spawned or just-advanced particle
    /// produces: its pose, its color, its normalized age.
    pub open spec fn of_particle_spec(p: Particle) -> InstanceData {
        InstanceData {
            transform: transform_of(p),
            color: p.color,
            duration_fraction: p.duration_fraction,
        }
    }

    /// Derives fresh render data from a particle.
    pub fn of_particle(p: &Particle) -> (r: InstanceData)
        requires
            p.wf(),
            p.age() <= AGE_MAX as int,
        ensures
            r == InstanceData::of_particle_spec(*p),
    {
        InstanceData {
            transform: p.get_transform(),
            color: p.color,
            duration_fraction: p.duration_fraction,
        }
    }

    /// Rewrites the pose from the particle's current age.
    pub fn update_transform(&mut self, p: &Particle)
        requires
            p.wf(),
            p.age() <= AGE_MAX as int,
        ensures
            *final(self) == (InstanceData { transform: transform_of(*p), ..*old(self) }),
    {
        self.transform = p.get_transform();
    }

    /// Rewrites the color channel.
    pub fn update_color(&mut self, c: &Rgba)
        ensures
            *final(self) == (InstanceData { color: *c, ..*old(self) }),
    {
        self.color = *c;
    }

    /// Rewrites the normalized age the renderer sees.
    pub fn update_duration_fraction(&mut self, f: i64)
        ensures
            *final(self) == (InstanceData { duration_fraction: f, ..*old(self) }),
    {
        self.duration_fraction = f;
    }
}


/// Pure constant-velocity motion: with zero damping, zero acceleration
/// and zero gravity, the displacement at any age is exactly the packed
/// spawn velocity times the age, and the rotation exactly the spawn
/// angular velocity times the age.
pub proof fn lemma_constant_velocity_motion(p: Particle)
    requires
        p.linear_damp == 0,
        p.angular_damp == 0,
        p.linear_acceleration == 0,
        p.angular_acceleration == 0,
        p.gravity == (Vec3 { x: 0, y: 0, z: 0 }),
    ensures
        displacement_x(p) == fmul(p.velocity.x as int, p.age()),
        displacement_y(p) == fmul(p.velocity.y as int, p.age()),
        displacement_z(p) == fmul(p.velocity.z as int, p.age()),
        rotation_of(p) == fmul(p.velocity.w as int, p.age()),
{
    lemma_fmul_zero(p.age());
    lemma_decay_at_zero();
    lemma_fmul_unit(p.velocity.x as int);
    lemma_fmul_unit(p.velocity.y as int);
    lemma_fmul_unit(p.velocity.z as int);
    lemma_fmul_unit(p.velocity.w as int);
    lemma_fmul_zero(p.direction.x as int);
    lemma_fmul_zero(p.direction.y as int);
    assert(lin_damp_factor(p) == SCALE as int);
    assert(ang_damp_factor(p) == SCALE as int);
    assert(lin_accel_term(p) == 0);
    assert(ang_accel_term(p) == 0);
    assert(eff_velocity_x(p) == p.velocity.x as int);
    assert(sdiv(fmul(fmul(0, p.age()), p.age()), 2) == 0);
}

/// Ballistic fall: with zero damping, zero acceleration and a zero spawn
/// velocity, the displacement along each axis is exactly half of gravity
/// times the age squared.
pub proof fn lemma_gravity_displacement(p: Particle)
    requires
        p.linear_damp == 0,
        p.angular_damp == 0,
        p.linear_acceleration == 0,
        p.angular_acceleration == 0,
        p.velocity.x == 0,
        p.velocity.y == 0,
        p.velocity.z == 0,
    ensures
        displacement_x(p) == sdiv(fmul(fmul(p.gravity.x as int, p.age()), p.age()), 2),
        displacement_y(p) == sdiv(fmul(fmul(p.gravity.y as int, p.age()), p.age()), 2),
        displacement_z(p) == sdiv(fmul(fmul(p.gravity.z as int, p.age()), p.age()), 2),
{
    lemma_fmul_zero(p.age());
    lemma_decay_at_zero();
    lemma_fmul_zero(SCALE as int);
    lemma_fmul_zero(lin_damp_factor(p));
    lemma_fmul_zero(lin_accel_term(p));
    lemma_fmul_zero(p.direction.x as int);
    lemma_fmul_zero(p.direction.y as int);
    assert(lin_accel_term(p) == 0);
    assert(eff_velocity_x(p) == 0);
    assert(eff_velocity_y(p) == 0);
    assert(eff_velocity_z(p) == 0);
}

} // verus!
