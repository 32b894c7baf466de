//! The per-tick update engine: spawn scheduling, particle instantiation,
//! batched advancement, retention, bounds estimation and lifecycle
//! retirement for one spawner.

use crate::effect::{EmissionShape, Particle2dEffect};
use crate::fixed::{
    absi, div_fp, fdiv, fmul, lemma_fmul_mag, lemma_fmul_zero, lemma_sdiv_mag, mul_fp, rem_fp,
    SCALE,
};
use crate::particle::{
    transform_of, InstanceData, Particle, AGE_MAX, COEFF_MAX, DELTA_MAX, DIR_MAX,
};
use crate::values::{
    color_curve_eval, scalar_curve_eval, ColorCurve, Rval, RvalVec2, ScalarCurve,
};
use crate::vecmath::{normalize_or_zero2, rot2_x, rot2_y, rotate2, Rgba, Vec2, Vec3, Vec4};
use vstd::prelude::*;

verus! {

/// Lifecycle tag: a spawner carrying one fires exactly one burst and then
/// deactivates; the `Despawn` variant is additionally removed by the host
/// once it has drained.
#[derive(Clone, Copy, Debug, PartialEq, Eq, Structural)]
pub enum OneShot {
    Deactivate,
    Despawn,
}

impl Default for OneShot {
    fn default() -> (r: OneShot)
        ensures
            r == OneShot::Deactivate,
    {
        OneShot::Deactivate
    }
}

/// The repeating spawn-cadence timer: it accumulates elapsed time and
/// fires at most once per tick, however many periods a long tick spans
/// (level-triggered, a deliberate policy). A zero period fires every tick.
#[derive(Clone, Copy, Debug, PartialEq, Eq, Structural)]
pub struct CadenceTimer {
    /// Period in milli-seconds.
    pub period: i64,
    /// Time accumulated toward the next firing, in milli-seconds.
    pub elapsed: i64,
    /// Whether the timer fired during the most recent tick.
    pub fired: bool,
}

/// The timer value after one tick of `delta` milli-seconds: the remainder
/// of the accumulated time keeps sub-period progress across firings.
pub open spec fn ticked(t: CadenceTimer, delta: int) -> CadenceTimer {
    if t.period <= 0 {
        CadenceTimer { elapsed: 0, fired: true, ..t }
    } else if t.elapsed + delta >= t.period {
        CadenceTimer { elapsed: ((t.elapsed + delta) % (t.period as int)) as i64, fired: true, ..t }
    } else {
        CadenceTimer { elapsed: (t.elapsed + delta) as i64, fired: false, ..t }
    }
}

impl CadenceTimer {
    pub open spec fn wf(self) -> bool {
        0 <= self.period <= 1_000_000_000 && 0 <= self.elapsed <= 1_000_000_000
    }

    pub fn new() -> (r: CadenceTimer)
        ensures
            r == (CadenceTimer { period: 0, elapsed: 0, fired: false }),
    {
        CadenceTimer { period: 0, elapsed: 0, fired: false }
    }

    /// Re-aims the cadence at a new period, keeping accumulated time.
    pub fn set_period(&mut self, period: i64)
        ensures
            *final(self) == (CadenceTimer { period, ..*old(self) }),
    {
        self.period = period;
    }

    /// Advances the timer by one tick.
    pub fn tick(&mut self, delta: i64)
        requires
            old(self).wf(),
            0 <= delta <= DELTA_MAX,
        ensures
            *final(self) == ticked(*old(self), delta as int),
            final(self).wf(),
    {
        if self.period <= 0 {
            self.elapsed = 0;
            self.fired = true;
        } else {
            let e = self.elapsed + delta;
            if e >= self.period {
                self.elapsed = rem_fp(e, self.period);
                self.fired = true;
            } else {
                self.elapsed = e;
                self.fired = false;
            }
        }
    }
}

/// Per-spawner mutable control state.
#[derive(Clone, Copy, Debug, PartialEq, Eq, Structural)]
pub struct ParticleSpawnerState {
    /// Capacity ceiling: a tick is skipped entirely while the store holds
    /// at least this many particles.
    pub max_particles: u32,
    /// Whether the cadence firing actually emits a burst.
    pub active: bool,
    /// The spawn-cadence timer.
    pub timer: CadenceTimer,
}

impl Default for ParticleSpawnerState {
    /// A fresh spawner: active, effectively unbounded, firing every tick.
    fn default() -> (r: ParticleSpawnerState)
        ensures
            r == (ParticleSpawnerState {
                max_particles: u32::MAX,
                active: true,
                timer: CadenceTimer { period: 0, elapsed: 0, fired: false },
            }),
    {
        ParticleSpawnerState {
            max_particles: u32::MAX,
            active: true,
            timer: CadenceTimer { period: 0, elapsed: 0, fired: false },
        }
    }
}

/// A spawner's private copy of the effect definition, refreshed on
/// attach; `None` until the shared template has been resolved, during
/// which ticks spawn nothing (a silent no-op, not a failure).
#[derive(Debug, Default)]
pub struct ParticleEffectInstance(pub Option<Particle2dEffect>);

/// The append/retain buffer of one spawner: particles paired with the
/// render data derived from them each tick.
#[derive(Debug, Default)]
pub struct ParticleStore {
    pub particles: Vec<(Particle, InstanceData)>,
}

/// Every particle in the sequence satisfies the engine's bounds.
pub open spec fn store_wf(s: Seq<(Particle, InstanceData)>) -> bool {
    forall|i: int| 0 <= i < s.len() ==> (#[trigger] s[i]).0.wf()
}

/// Every particle in the sequence is live (normalized age below one).
pub open spec fn store_live(s: Seq<(Particle, InstanceData)>) -> bool {
    forall|i: int| 0 <= i < s.len() ==> (#[trigger] s[i]).0.live()
}

impl ParticleStore {
    pub fn new() -> (r: ParticleStore)
        ensures
            r.particles@ =~= Seq::<(Particle, InstanceData)>::empty(),
    {
        ParticleStore { particles: Vec::new() }
    }

    pub fn len(&self) -> (r: usize)
        ensures
            r == self.particles@.len(),
    {
        self.particles.len()
    }

    pub fn is_empty(&self) -> (r: bool)
        ensures
            r == (self.particles@.len() == 0),
    {
        self.particles.len() == 0
    }
}

/// Copy-on-attach: overwrites the spawner's private effect copy with the
/// resolved template, or leaves it untouched while none is available.
pub fn clone_effect(instance: &mut ParticleEffectInstance, effect: Option<Particle2dEffect>)
    ensures
        match effect {
            Some(e) => final(instance).0 == Some(e),
            None => *final(instance) == *old(instance),
        },
{
    match effect {
        Some(e) => {
            instance.0 = Some(e);
        },
        None => {},
    }
}

/// Lifecycle retirement check: a spawner is to be removed by the host
/// exactly when it carries the `Despawn` one-shot tag, has deactivated,
/// and has no particles left.
pub fn remove_finished_spawner(
    one_shot: &OneShot,
    state: &ParticleSpawnerState,
    store: &ParticleStore,
) -> (r: bool)
    ensures
        r == (*one_shot == OneShot::Despawn && !state.active && store.particles@.len() == 0),
{
    match one_shot {
        OneShot::Despawn => !state.active && store.particles.len() == 0,
        OneShot::Deactivate => false,
    }
}

/// The spawner's world placement for one tick, as read from the host
/// scene graph: its position and its rightward axis projected to the
/// plane, in (cosine, sine) form.
#[derive(Clone, Copy, Debug, PartialEq, Eq, Structural)]
pub struct WorldFrame {
    pub translation: Vec3,
    pub right: Vec2,
}

impl WorldFrame {
    pub open spec fn wf(self) -> bool {
        self.translation.wf_within(100_000_000_000) && self.right.wf_within(2_000)
    }

    /// An untranslated, unrotated frame.
    pub fn identity() -> (r: WorldFrame)
        ensures
            r == (WorldFrame { translation: Vec3 { x: 0, y: 0, z: 0 }, right: Vec2 { x: SCALE, y: 0 } }),
    {
        WorldFrame { translation: Vec3 { x: 0, y: 0, z: 0 }, right: Vec2 { x: SCALE, y: 0 } }
    }
}

/// `s` is a value the randomized field can produce: within the closed
/// range when the field is configured, zero when it is absent.
pub open spec fn sampled(v: Option<Rval>, s: int) -> bool {
    match v {
        Some(r) => r.lo as int <= s <= r.hi as int,
        None => s == 0,
    }
}

/// Everything particle instantiation guarantees about a newly spawned
/// particle: each randomized field lies in its configured range, the
/// velocity packs direction times speed with the sampled angular speed,
/// gravity is direction times speed fixed at spawn, the lifetime is
/// clamped strictly positive, the normalized age starts at zero, and the
/// start position sits within the emission shape around the spawner.
pub open spec fn spawn_ok(effect: Particle2dEffect, frame: WorldFrame, p: Particle) -> bool {
    &&& p.wf()
    &&& p.duration_fraction == 0
    &&& p.frame == 0
    &&& vstd::math::max(1, effect.lifetime.lo as int) <= p.duration as int <= vstd::math::max(
        1,
        effect.lifetime.hi as int,
    )
    &&& p.color == match effect.color {
        Some(c) => c,
        None => Rgba { red: SCALE, green: SCALE, blue: SCALE, alpha: SCALE },
    }
    &&& sampled(effect.scale, p.scale as int)
    &&& sampled(effect.linear_damp, p.linear_damp as int)
    &&& sampled(effect.angular_damp, p.angular_damp as int)
    &&& sampled(effect.linear_acceleration, p.linear_acceleration as int)
    &&& sampled(effect.angular_acceleration, p.angular_acceleration as int)
    &&& sampled(effect.angular_speed, p.velocity.w as int)
    &&& p.velocity.z == 0
    &&& (exists|s: int|
        sampled(effect.linear_speed, s) && p.velocity.x as int == fmul(p.direction.x as int, s)
            && p.velocity.y as int == fmul(p.direction.y as int, s))
    &&& (exists|d: Vec2|
        d.wf_within(SCALE as int) && (effect.direction is None ==> d == (Vec2 { x: 0, y: 0 }))
            && p.direction.x as int == rot2_x(d, frame.right) && p.direction.y as int == rot2_y(
            d,
            frame.right,
        ))
    &&& p.gravity.z == 0
    &&& (exists|g: Vec2, gs: int|
        g.wf_within(SCALE as int) && (effect.gravity_direction is None ==> g == (Vec2 {
            x: 0,
            y: 0,
        })) && sampled(effect.gravity_speed, gs) && p.gravity.x as int == fmul(g.x as int, gs)
            && p.gravity.y as int == fmul(g.y as int, gs))
    &&& match effect.emission_shape {
        EmissionShape::Point => p.start_pos == frame.translation,
        EmissionShape::Circle(radius) => absi(
            p.start_pos.x as int - frame.translation.x as int,
        ) <= radius as int && absi(p.start_pos.y as int - frame.translation.y as int)
            <= radius as int && p.start_pos.z == frame.translation.z && (exists|jd: Vec2, k: int|
            jd.wf_within(SCALE as int) && 0 <= k <= SCALE as int && p.start_pos.x as int
                == frame.translation.x as int + fmul(fmul(jd.x as int, radius as int), k)
                && p.start_pos.y as int == frame.translation.y as int + fmul(
                fmul(jd.y as int, radius as int),
                k,
            )),
    }
}

/// Samples an optional scalar field; a missing field degenerates to zero.
fn opt_rand(v: &Option<Rval>) -> (r: i64)
    requires
        match v {
            Some(rv) => rv.lo <= rv.hi,
            None => true,
        },
    ensures
        sampled(*v, r as int),
{
    match v {
        Some(rv) => rv.rand(),
        None => 0,
    }
}

/// Samples an optional planar field; a missing field degenerates to the
/// zero vector.
fn opt_rand_vec2(v: &Option<RvalVec2>) -> (r: Vec2)
    requires
        match v {
            Some(rv) => rv.x.lo <= rv.x.hi && rv.y.lo <= rv.y.hi,
            None => true,
        },
    ensures
        match v {
            Some(rv) => rv.x.lo <= r.x <= rv.x.hi && rv.y.lo <= r.y <= rv.y.hi,
            None => r == (Vec2 { x: 0, y: 0 }),
        },
{
    match v {
        Some(rv) => rv.rand(),
        None => Vec2::zero(),
    }
}

/// Instantiates one particle from the effect definition and the
/// spawner's world frame, sampling every randomized field independently.
pub fn create_particle(effect: &Particle2dEffect, frame: &WorldFrame) -> (p: Particle)
    requires
        effect.wf(),
        frame.wf(),
    ensures
        spawn_ok(*effect, *frame, p),
{
    let raw_dir = opt_rand_vec2(&effect.direction);
    let norm_dir = normalize_or_zero2(raw_dir);
    let direction = rotate2(norm_dir, frame.right);
    proof {
        lemma_fmul_mag(norm_dir.x as int, frame.right.x as int, SCALE as int, 2_000);
        lemma_fmul_mag(norm_dir.y as int, frame.right.y as int, SCALE as int, 2_000);
        lemma_fmul_mag(norm_dir.x as int, frame.right.y as int, SCALE as int, 2_000);
        lemma_fmul_mag(norm_dir.y as int, frame.right.x as int, SCALE as int, 2_000);
        assert(direction.wf_within(DIR_MAX as int));
    }
    let speed = opt_rand(&effect.linear_speed);
    let angular = opt_rand(&effect.angular_speed);
    let scale = opt_rand(&effect.scale);
    let raw_gdir = opt_rand_vec2(&effect.gravity_direction);
    let gdir = normalize_or_zero2(raw_gdir);
    let gravity_speed = opt_rand(&effect.gravity_speed);
    let linear_damp = opt_rand(&effect.linear_damp);
    let angular_damp = opt_rand(&effect.angular_damp);
    let angular_acceleration = opt_rand(&effect.angular_acceleration);
    let linear_acceleration = opt_rand(&effect.linear_acceleration);

    let start_pos = match effect.emission_shape {
        EmissionShape::Point => frame.translation,
        EmissionShape::Circle(radius) => {
            let jx = Rval { lo: -500, hi: 500 }.rand();
            let jy = Rval { lo: -500, hi: 500 }.rand();
            let jdir = normalize_or_zero2(Vec2 { x: jx, y: jy });
            let k = Rval { lo: 0, hi: SCALE }.rand();
            proof {
                lemma_fmul_mag(jdir.x as int, radius as int, SCALE as int, radius as int);
                lemma_fmul_mag(jdir.y as int, radius as int, SCALE as int, radius as int);
            }
            let ox = mul_fp(jdir.x, radius);
            let oy = mul_fp(jdir.y, radius);
            proof {
                lemma_fmul_mag(ox as int, k as int, radius as int, SCALE as int);
                lemma_fmul_mag(oy as int, k as int, radius as int, SCALE as int);
            }
            let pos = Vec3 {
                x: frame.translation.x + mul_fp(ox, k),
                y: frame.translation.y + mul_fp(oy, k),
                z: frame.translation.z,
            };
            proof {
                assert(jdir.wf_within(SCALE as int) && 0 <= k as int <= SCALE as int
                    && pos.x as int == frame.translation.x as int + fmul(
                    fmul(jdir.x as int, radius as int),
                    k as int,
                ) && pos.y as int == frame.translation.y as int + fmul(
                    fmul(jdir.y as int, radius as int),
                    k as int,
                ));
            }
            pos
        },
    };
    proof {
        lemma_fmul_mag(direction.x as int, speed as int, DIR_MAX as int, COEFF_MAX as int);
        lemma_fmul_mag(direction.y as int, speed as int, DIR_MAX as int, COEFF_MAX as int);
        lemma_fmul_mag(gdir.x as int, gravity_speed as int, SCALE as int, COEFF_MAX as int);
        lemma_fmul_mag(gdir.y as int, gravity_speed as int, SCALE as int, COEFF_MAX as int);
    }
    let vx = mul_fp(direction.x, speed);
    let vy = mul_fp(direction.y, speed);
    let gx = mul_fp(gdir.x, gravity_speed);
    let gy = mul_fp(gdir.y, gravity_speed);
    let sampled_life = effect.lifetime.rand();
    let duration = if sampled_life < 1 {
        1
    } else {
        sampled_life
    };
    let color = match effect.color {
        Some(c) => c,
        None => Rgba::white(),
    };
    let p = Particle {
        start_pos,
        scale,
        direction,
        velocity: Vec4 { x: vx, y: vy, z: 0, w: angular },
        duration_fraction: 0,
        duration,
        color,
        angular_damp,
        linear_damp,
        angular_acceleration,
        linear_acceleration,
        gravity: Vec3 { x: gx, y: gy, z: 0 },
        frame: 0,
    };
    proof {
        assert(sampled(effect.linear_speed, speed as int) && p.velocity.x as int == fmul(
            p.direction.x as int,
            speed as int,
        ) && p.velocity.y as int == fmul(p.direction.y as int, speed as int));
        assert(norm_dir.wf_within(SCALE as int) && (effect.direction is None ==> norm_dir == (Vec2 {
            x: 0,
            y: 0,
        })) && p.direction.x as int == rot2_x(norm_dir, frame.right) && p.direction.y as int
            == rot2_y(norm_dir, frame.right));
        assert(gdir.wf_within(SCALE as int) && (effect.gravity_direction is None ==> gdir == (Vec2 {
            x: 0,
            y: 0,
        })) && sampled(effect.gravity_speed, gravity_speed as int) && p.gravity.x as int == fmul(
            gdir.x as int,
            gravity_speed as int,
        ) && p.gravity.y as int == fmul(gdir.y as int, gravity_speed as int));
        assert(p.wf());
    }
    p
}

/// Appends one burst of freshly instantiated particles, each paired with
/// render data derived from its spawn state, leaving existing particles
/// untouched.
pub fn spawn_burst(store: &mut ParticleStore, effect: &Particle2dEffect, frame: &WorldFrame)
    requires
        effect.wf(),
        frame.wf(),
    ensures
        final(store).particles@.len() == old(store).particles@.len()
            + effect.spawn_amount as int,
        final(store).particles@.subrange(0, old(store).particles@.len() as int) == old(
            store,
        ).particles@,
        forall|j: int|
            old(store).particles@.len() <= j < final(store).particles@.len() ==> spawn_ok(
                *effect,
                *frame,
                (#[trigger] final(store).particles@[j]).0,
            ) && final(store).particles@[j].1 == InstanceData::of_particle_spec(
                final(store).particles@[j].0,
            ),
{
    let ghost base = store.particles@;
    let amount = effect.spawn_amount;
    let mut k: u32 = 0;
    while k < amount
        invariant
            effect.wf(),
            frame.wf(),
            k <= amount,
            store.particles@.len() == base.len() + k as int,
            store.particles@.subrange(0, base.len() as int) == base,
            forall|j: int|
                base.len() <= j < store.particles@.len() ==> spawn_ok(
                    *effect,
                    *frame,
                    (#[trigger] store.particles@[j]).0,
                ) && store.particles@[j].1 == InstanceData::of_particle_spec(
                    store.particles@[j].0,
                ),
        decreases amount - k,
    {
        let p = create_particle(effect, frame);
        proof {
            lemma_fmul_zero(p.duration as int);
            assert(p.age() == 0);
        }
        let inst = InstanceData::of_particle(&p);
        let ghost before = store.particles@;
        store.particles.push((p, inst));
        proof {
            assert(store.particles@.subrange(0, base.len() as int) =~= before.subrange(
                0,
                base.len() as int,
            ));
        }
        k = k + 1;
    }
}

/// The subsequence of pairs whose particle is still live, in order.
pub open spec fn filter_live(s: Seq<(Particle, InstanceData)>) -> Seq<(Particle, InstanceData)>
    decreases s.len(),
{
    if s.len() == 0 {
        Seq::empty()
    } else {
        let rest = filter_live(s.drop_last());
        if s.last().0.live() {
            rest.push(s.last())
        } else {
            rest
        }
    }
}

pub proof fn lemma_filter_live_props(s: Seq<(Particle, InstanceData)>)
    ensures
        filter_live(s).len() <= s.len(),
        forall|j: int|
            0 <= j < filter_live(s).len() ==> exists|i: int|
                0 <= i < s.len() && (#[trigger] filter_live(s)[j]) == s[i],
        store_live(filter_live(s)),
        store_wf(s) ==> store_wf(filter_live(s)),
    decreases s.len(),
{
    if s.len() == 0 {
    } else {
        lemma_filter_live_props(s.drop_last());
        let rest = filter_live(s.drop_last());
        assert forall|j: int| 0 <= j < filter_live(s).len() implies exists|i: int|
            0 <= i < s.len() && (#[trigger] filter_live(s)[j]) == s[i] by {
            if j < rest.len() {
                assert(filter_live(s)[j] == rest[j]);
                let i = choose|i: int| 0 <= i < s.drop_last().len() && rest[j] == s.drop_last()[i];
                assert(s.drop_last()[i] == s[i]);
            } else {
                assert(filter_live(s)[j] == s.last());
                assert(s.last() == s[s.len() - 1]);
            }
        }
    }
}

/// Normalized age after one tick: the elapsed tick time rescaled by the
/// particle's lifetime is added to the fraction.
pub open spec fn advanced_fraction(p: Particle, delta: int) -> int {
    p.duration_fraction as int + fdiv(delta, p.duration as int)
}

/// The particle one tick later: age advanced, scale and color rewritten
/// from whichever curves the effect carries, everything else fixed since
/// spawn.
pub open spec fn advanced_particle(
    p: Particle,
    sc: Option<ScalarCurve>,
    cc: Option<ColorCurve>,
    delta: int,
) -> Particle {
    let f = advanced_fraction(p, delta);
    Particle {
        duration_fraction: f as i64,
        scale: match sc {
            Some(c) => scalar_curve_eval(c.points@, f) as i64,
            None => p.scale,
        },
        color: match cc {
            Some(c) => color_curve_eval(c.points@, f),
            None => p.color,
        },
        ..p
    }
}

/// The (particle, render data) pair one tick later: the render data
/// always takes the recomputed pose and age, and the curve-driven color
/// only when a color curve is present.
pub open spec fn advanced_pair(
    pr: (Particle, InstanceData),
    sc: Option<ScalarCurve>,
    cc: Option<ColorCurve>,
    delta: int,
) -> (Particle, InstanceData) {
    let q = advanced_particle(pr.0, sc, cc, delta);
    (
        q,
        InstanceData {
            transform: transform_of(q),
            duration_fraction: q.duration_fraction,
            color: if cc is Some {
                q.color
            } else {
                pr.1.color
            },
        },
    )
}

/// Every pair advanced independently; order kept.
pub open spec fn advance_all(
    s: Seq<(Particle, InstanceData)>,
    sc: Option<ScalarCurve>,
    cc: Option<ColorCurve>,
    delta: int,
) -> Seq<(Particle, InstanceData)> {
    Seq::new(s.len(), |i: int| advanced_pair(s[i], sc, cc, delta))
}

/// One tick preserves the particle bounds, keeps the absolute age within
/// the range the kinematics are stated for, and never decreases the
/// normalized age.
pub proof fn lemma_advanced_wf(
    p: Particle,
    sc: Option<ScalarCurve>,
    cc: Option<ColorCurve>,
    delta: int,
)
    requires
        p.wf(),
        p.live(),
        0 <= delta <= DELTA_MAX as int,
        sc matches Some(c) ==> c.wf(),
        cc matches Some(c) ==> c.wf(),
    ensures
        advanced_particle(p, sc, cc, delta).wf(),
        0 <= advanced_particle(p, sc, cc, delta).age() <= AGE_MAX as int,
        advanced_particle(p, sc, cc, delta).duration_fraction >= p.duration_fraction,
        advanced_particle(p, sc, cc, delta).duration_fraction as int == advanced_fraction(p, delta),
        0 <= advanced_fraction(p, delta) <= 1_000_000_000,
{
    let dur = p.duration as int;
    let inc = fdiv(delta, dur);
    assert(0 <= delta * 1000 <= 100_000_000);
    lemma_sdiv_mag(delta * 1000, dur, 100_000_000);
    assert(0 <= inc <= 100_000_000);
    let f = advanced_fraction(p, delta);
    assert(0 <= f <= 1_000_000_000);
    if sc is Some {
        crate::values::lemma_scalar_eval_bound(sc->Some_0.points@, f);
    }
    if cc is Some {
        crate::values::lemma_color_eval_bound(cc->Some_0.points@, f);
    }
    let q = advanced_particle(p, sc, cc, delta);
    assert(q.wf());
    // The absolute age after the tick is at most the lifetime plus the
    // tick, however large the fraction increment was for a short life.
    let fd = f * dur;
    assert(fd == p.duration_fraction as int * dur + inc * dur) by (nonlinear_arith)
        requires
            f == p.duration_fraction as int + inc,
            fd == f * dur,
    ;
    assert(p.duration_fraction as int * dur <= 999 * dur) by (nonlinear_arith)
        requires
            0 <= p.duration_fraction as int <= 999,
            dur >= 1,
    ;
    assert(delta * 1000 == dur * ((delta * 1000) / dur) + (delta * 1000) % dur) by {
        vstd::arithmetic::div_mod::lemma_fundamental_div_mod(delta * 1000, dur);
    };
    assert(inc == (delta * 1000) / dur);
    assert((delta * 1000) % dur >= 0);
    assert(inc * dur <= delta * 1000) by (nonlinear_arith)
        requires
            delta * 1000 == dur * inc + (delta * 1000) % dur,
            (delta * 1000) % dur >= 0,
    ;
    assert(fd <= 1000 * (dur + delta)) by (nonlinear_arith)
        requires
            fd <= 999 * dur + delta * 1000,
            dur >= 1,
    ;
    assert(fd >= 0) by (nonlinear_arith)
        requires
            f >= 0,
            dur >= 1,
            fd == f * dur,
    ;
    assert(q.age() == fd / 1000);
    vstd::arithmetic::div_mod::lemma_div_is_ordered(fd, 1000 * (dur + delta), 1000);
    vstd::arithmetic::div_mod::lemma_div_multiples_vanish(dur + delta, 1000);
    vstd::arithmetic::div_mod::lemma_div_pos_is_pos(fd, 1000);
}

/// Advances the normalized age by `delta` rescaled to the lifetime.
fn advance_base(p: &mut Particle, delta: i64)
    requires
        old(p).wf(),
        old(p).live(),
        0 <= delta <= DELTA_MAX,
    ensures
        *final(p) == (Particle {
            duration_fraction: advanced_fraction(*old(p), delta as int) as i64,
            ..*old(p)
        }),
{
    let inc = div_fp(delta, p.duration);
    proof {
        lemma_sdiv_mag(delta as int * 1000, p.duration as int, 100_000_000);
    }
    p.duration_fraction = p.duration_fraction + inc;
}

impl ParticleStore {
    /// Compaction pass: retains exactly the live particles, in order.
    pub fn retain_live(&mut self)
        ensures
            final(self).particles@ == filter_live(old(self).particles@),
            store_live(final(self).particles@),
            store_wf(old(self).particles@) ==> store_wf(final(self).particles@),
    {
        let n = self.particles.len();
        let mut kept: Vec<(Particle, InstanceData)> = Vec::new();
        let mut i: usize = 0;
        proof {
            assert(self.particles@.take(0) =~= Seq::<(Particle, InstanceData)>::empty());
        }
        while i < n
            invariant
                n == self.particles@.len(),
                0 <= i <= n,
                kept@ == filter_live(self.particles@.take(i as int)),
            decreases n - i,
        {
            let ghost prefix = self.particles@.take(i as int + 1);
            proof {
                assert(prefix.drop_last() =~= self.particles@.take(i as int));
                assert(prefix.last() == self.particles@[i as int]);
            }
            let pair = self.particles[i];
            if pair.0.duration_fraction < SCALE {
                kept.push(pair);
            }
            i = i + 1;
        }
        proof {
            assert(self.particles@.take(n as int) =~= self.particles@);
            lemma_filter_live_props(self.particles@);
        }
        self.particles = kept;
    }
}

/// Advances every stored pair by one tick. The dispatch on which curves
/// the effect carries happens once here, so each per-particle loop does
/// only the work its path needs.
pub fn advance_store(
    store: &mut ParticleStore,
    sc: &Option<ScalarCurve>,
    cc: &Option<ColorCurve>,
    delta: i64,
)
    requires
        store_wf(old(store).particles@),
        store_live(old(store).particles@),
        0 <= delta <= DELTA_MAX,
        *sc matches Some(c) ==> c.wf(),
        *cc matches Some(c) ==> c.wf(),
    ensures
        final(store).particles@.len() == old(store).particles@.len(),
        forall|i: int|
            0 <= i < old(store).particles@.len() ==> (#[trigger] final(store).particles@[i])
                == advanced_pair(old(store).particles@[i], *sc, *cc, delta as int),
        store_wf(final(store).particles@),
{
    let n = store.particles.len();
    match (sc, cc) {
        (None, None) => {
            let mut i: usize = 0;
            while i < n
                invariant
                    n == store.particles@.len(),
                    n == old(store).particles@.len(),
                    0 <= i <= n,
                    0 <= delta <= DELTA_MAX,
                    *sc is None,
                    *cc is None,
                    store_wf(old(store).particles@),
                    store_live(old(store).particles@),
                    forall|j: int|
                        i <= j < n ==> (#[trigger] store.particles@[j]) == old(
                            store,
                        ).particles@[j],
                    forall|j: int|
                        0 <= j < i ==> (#[trigger] store.particles@[j]) == advanced_pair(
                            old(store).particles@[j],
                            *sc,
                            *cc,
                            delta as int,
                        ) && store.particles@[j].0.wf(),
                decreases n - i,
            {
                let pair = store.particles[i];
                let mut p = pair.0;
                let mut inst = pair.1;
                proof {
                    assert(pair == old(store).particles@[i as int]);
                    assert(old(store).particles@[i as int].0.wf());
                    assert(old(store).particles@[i as int].0.live());
                    lemma_advanced_wf(p, *sc, *cc, delta as int);
                }
                advance_base(&mut p, delta);
                inst.update_duration_fraction(p.duration_fraction);
                proof {
                    assert(p == advanced_particle(pair.0, *sc, *cc, delta as int));
                }
                inst.update_transform(&p);
                store.particles.set(i, (p, inst));
                proof {
                    assert((p, inst) == advanced_pair(pair, *sc, *cc, delta as int));
                }
                i = i + 1;
            }
        },
        (None, Some(c)) => {
            let mut i: usize = 0;
            while i < n
                invariant
                    n == store.particles@.len(),
                    n == old(store).particles@.len(),
                    0 <= i <= n,
                    0 <= delta <= DELTA_MAX,
                    *sc is None,
                    *cc matches Some(cv) && cv == *c,
                    c.wf(),
                    store_wf(old(store).particles@),
                    store_live(old(store).particles@),
                    forall|j: int|
                        i <= j < n ==> (#[trigger] store.particles@[j]) == old(
                            store,
                        ).particles@[j],
                    forall|j: int|
                        0 <= j < i ==> (#[trigger] store.particles@[j]) == advanced_pair(
                            old(store).particles@[j],
                            *sc,
                            *cc,
                            delta as int,
                        ) && store.particles@[j].0.wf(),
                decreases n - i,
            {
                let pair = store.particles[i];
                let mut p = pair.0;
                let mut inst = pair.1;
                proof {
                    assert(pair == old(store).particles@[i as int]);
                    assert(old(store).particles@[i as int].0.wf());
                    assert(old(store).particles@[i as int].0.live());
                    lemma_advanced_wf(p, *sc, *cc, delta as int);
                }
                advance_base(&mut p, delta);
                p.color = c.lerp(p.duration_fraction);
                inst.update_duration_fraction(p.duration_fraction);
                proof {
                    assert(p == advanced_particle(pair.0, *sc, *cc, delta as int));
                }
                inst.update_transform(&p);
                inst.update_color(&p.color);
                store.particles.set(i, (p, inst));
                proof {
                    assert((p, inst) == advanced_pair(pair, *sc, *cc, delta as int));
                }
                i = i + 1;
            }
        },
        (Some(s), None) => {
            let mut i: usize = 0;
            while i < n
                invariant
                    n == store.particles@.len(),
                    n == old(store).particles@.len(),
                    0 <= i <= n,
                    0 <= delta <= DELTA_MAX,
                    *sc matches Some(sv) && sv == *s,
                    s.wf(),
                    *cc is None,
                    store_wf(old(store).particles@),
                    store_live(old(store).particles@),
                    forall|j: int|
                        i <= j < n ==> (#[trigger] store.particles@[j]) == old(
                            store,
                        ).particles@[j],
                    forall|j: int|
                        0 <= j < i ==> (#[trigger] store.particles@[j]) == advanced_pair(
                            old(store).particles@[j],
                            *sc,
                            *cc,
                            delta as int,
                        ) && store.particles@[j].0.wf(),
                decreases n - i,
            {
                let pair = store.particles[i];
                let mut p = pair.0;
                let mut inst = pair.1;
                proof {
                    assert(pair == old(store).particles@[i as int]);
                    assert(old(store).particles@[i as int].0.wf());
                    assert(old(store).particles@[i as int].0.live());
                    lemma_advanced_wf(p, *sc, *cc, delta as int);
                }
                advance_base(&mut p, delta);
                p.scale = s.lerp(p.duration_fraction);
                inst.update_duration_fraction(p.duration_fraction);
                proof {
                    assert(p == advanced_particle(pair.0, *sc, *cc, delta as int));
                }
                inst.update_transform(&p);
                store.particles.set(i, (p, inst));
                proof {
                    assert((p, inst) == advanced_pair(pair, *sc, *cc, delta as int));
                }
                i = i + 1;
            }
        },
        (Some(s), Some(c)) => {
            let mut i: usize = 0;
            while i < n
                invariant
                    n == store.particles@.len(),
                    n == old(store).particles@.len(),
                    0 <= i <= n,
                    0 <= delta <= DELTA_MAX,
                    *sc matches Some(sv) && sv == *s,
                    s.wf(),
                    *cc matches Some(cv) && cv == *c,
                    c.wf(),
                    store_wf(old(store).particles@),
                    store_live(old(store).particles@),
                    forall|j: int|
                        i <= j < n ==> (#[trigger] store.particles@[j]) == old(
                            store,
                        ).particles@[j],
                    forall|j: int|
                        0 <= j < i ==> (#[trigger] store.particles@[j]) == advanced_pair(
                            old(store).particles@[j],
                            *sc,
                            *cc,
                            delta as int,
                        ) && store.particles@[j].0.wf(),
                decreases n - i,
            {
                let pair = store.particles[i];
                let mut p = pair.0;
                let mut inst = pair.1;
                proof {
                    assert(pair == old(store).particles@[i as int]);
                    assert(old(store).particles@[i as int].0.wf());
                    assert(old(store).particles@[i as int].0.live());
                    lemma_advanced_wf(p, *sc, *cc, delta as int);
                }
                advance_base(&mut p, delta);
                p.scale = s.lerp(p.duration_fraction);
                p.color = c.lerp(p.duration_fraction);
                inst.update_duration_fraction(p.duration_fraction);
                proof {
                    assert(p == advanced_particle(pair.0, *sc, *cc, delta as int));
                }
                inst.update_transform(&p);
                inst.update_color(&p.color);
                store.particles.set(i, (p, inst));
                proof {
                    assert((p, inst) == advanced_pair(pair, *sc, *cc, delta as int));
                }
                i = i + 1;
            }
        },
    }
}


/// One spawner's full simulation tick. Skips entirely at capacity or
/// while no effect copy is attached. Otherwise it re-aims and advances
/// the cadence timer; if the timer fired while the spawner is active it
/// appends one burst of freshly sampled particles (and deactivates a
/// one-shot spawner immediately after its burst); every particle —
/// including the fresh ones — is then advanced by the curve-dispatched
/// batch pass, and expired particles are pruned.
pub fn update_spawner(
    store: &mut ParticleStore,
    state: &mut ParticleSpawnerState,
    effect_instance: &ParticleEffectInstance,
    frame: &WorldFrame,
    one_shot: Option<&OneShot>,
    delta: i64,
)
    requires
        store_wf(old(store).particles@),
        store_live(old(store).particles@),
        old(state).timer.wf(),
        effect_instance.0 matches Some(e) ==> e.wf(),
        frame.wf(),
        0 <= delta <= DELTA_MAX,
    ensures
        final(state).max_particles == old(state).max_particles,
        store_wf(final(store).particles@),
        store_live(final(store).particles@),
        final(state).timer.wf(),
        (old(store).particles@.len() >= old(state).max_particles as int || effect_instance.0
            is None) ==> (final(store).particles@ == old(store).particles@ && *final(state)
            == *old(state)),
        effect_instance.0 matches Some(e) ==> (old(store).particles@.len() < old(
            state,
        ).max_particles as int ==> ({
            let t1 = ticked((CadenceTimer { period: e.spawn_rate, ..old(state).timer }), delta as int);
            let burst = t1.fired && old(state).active;
            &&& final(state).timer == t1
            &&& final(state).active == (old(state).active && !(t1.fired && one_shot.is_some()))
            &&& (!burst ==> final(store).particles@ == filter_live(
                advance_all(old(store).particles@, e.scale_curve, e.color_curve, delta as int),
            ))
            &&& (burst ==> exists|fresh: Seq<(Particle, InstanceData)>|
                fresh.len() == e.spawn_amount as int && (forall|j: int|
                    0 <= j < fresh.len() ==> spawn_ok(e, *frame, (#[trigger] fresh[j]).0)
                        && fresh[j].1 == InstanceData::of_particle_spec(fresh[j].0))
                    && final(store).particles@ == filter_live(
                    advance_all(
                        old(store).particles@ + fresh,
                        e.scale_curve,
                        e.color_curve,
                        delta as int,
                    ),
                ))
            &&& final(store).particles@.len() <= old(store).particles@.len() + (if burst {
                e.spawn_amount as int
            } else {
                0
            })
        })),
        effect_instance.0 matches Some(e) ==> (old(store).particles@.len()
            + e.spawn_amount as int <= old(state).max_particles as int
            ==> final(store).particles@.len() <= old(state).max_particles as int),
        !old(state).active ==> (!final(state).active
            && final(store).particles@.len() <= old(store).particles@.len()),
{
    let n = store.particles.len();
    if n as u64 >= state.max_particles as u64 {
        return ;
    }
    match &effect_instance.0 {
        None => {
            return ;
        },
        Some(effect) => {
            state.timer.set_period(effect.spawn_rate);
            state.timer.tick(delta);
            let fired = state.timer.fired;
            let ghost base = store.particles@;
            let mut burst = false;
            if fired && state.active {
                spawn_burst(store, effect, frame);
                burst = true;
                if one_shot.is_some() {
                    state.active = false;
                }
            }
            let ghost pre = store.particles@;
            let ghost fresh = pre.subrange(base.len() as int, pre.len() as int);
            proof {
                if burst {
                    assert(pre =~= base + fresh);
                    assert(forall|j: int|
                        0 <= j < fresh.len() ==> (#[trigger] fresh[j]) == pre[base.len() + j]);
                } else {
                    assert(pre =~= base + fresh);
                }
                assert(store_wf(pre) && store_live(pre)) by {
                    assert(forall|i: int|
                        0 <= i < base.len() ==> (#[trigger] pre[i]) == base[i]);
                    assert(forall|i: int|
                        base.len() <= i < pre.len() ==> spawn_ok(
                            *effect,
                            *frame,
                            (#[trigger] pre[i]).0,
                        ));
                };
            }
            advance_store(store, &effect.scale_curve, &effect.color_curve, delta);
            let ghost advanced = store.particles@;
            proof {
                assert(advanced =~= advance_all(
                    pre,
                    effect.scale_curve,
                    effect.color_curve,
                    delta as int,
                ));
            }
            store.retain_live();
            proof {
                lemma_filter_live_props(advanced);
            }
        },
    }
}


/// An axis-aligned bounding volume, z extent collapsed to zero.
#[derive(Clone, Copy, Debug, PartialEq, Eq, Structural)]
pub struct Aabb {
    pub min: Vec3,
    pub max: Vec3,
}

/// Sampling stride for bounds estimation: every particle up to a
/// thousand, then coarser, never coarser than one in ten thousand.
pub open spec fn stride_of(len: int) -> int {
    if len / 1000 < 1 {
        1
    } else if len / 1000 > 10 {
        10
    } else {
        len / 1000
    }
}

/// Minimum of zero and the x coordinates of every `stride`-th particle
/// among the first `n`.
pub open spec fn bounds_min_x(s: Seq<(Particle, InstanceData)>, stride: int, n: int) -> int
    decreases n,
{
    if n <= 0 {
        0
    } else {
        let rest = bounds_min_x(s, stride, n - 1);
        if (n - 1) % stride == 0 {
            vstd::math::min(rest, s[n - 1].0.start_pos.x as int)
        } else {
            rest
        }
    }
}

pub open spec fn bounds_min_y(s: Seq<(Particle, InstanceData)>, stride: int, n: int) -> int
    decreases n,
{
    if n <= 0 {
        0
    } else {
        let rest = bounds_min_y(s, stride, n - 1);
        if (n - 1) % stride == 0 {
            vstd::math::min(rest, s[n - 1].0.start_pos.y as int)
        } else {
            rest
        }
    }
}

pub open spec fn bounds_max_x(s: Seq<(Particle, InstanceData)>, stride: int, n: int) -> int
    decreases n,
{
    if n <= 0 {
        0
    } else {
        let rest = bounds_max_x(s, stride, n - 1);
        if (n - 1) % stride == 0 {
            vstd::math::max(rest, s[n - 1].0.start_pos.x as int)
        } else {
            rest
        }
    }
}

pub open spec fn bounds_max_y(s: Seq<(Particle, InstanceData)>, stride: int, n: int) -> int
    decreases n,
{
    if n <= 0 {
        0
    } else {
        let rest = bounds_max_y(s, stride, n - 1);
        if (n - 1) % stride == 0 {
            vstd::math::max(rest, s[n - 1].0.start_pos.y as int)
        } else {
            rest
        }
    }
}

/// Estimates a bounding volume by folding the spawn positions of every
/// `stride`-th particle (a sampling heuristic, not a guarantee for the
/// unsampled rest) together with the origin, as an absent box for an
/// empty store.
pub fn calculcate_particle_bounds(store: &ParticleStore) -> (r: Option<Aabb>)
    ensures
        match r {
            None => store.particles@.len() == 0,
            Some(b) => {
                let s = store.particles@;
                let k = stride_of(s.len() as int);
                &&& s.len() > 0
                &&& b.min.x as int == bounds_min_x(s, k, s.len() as int)
                &&& b.min.y as int == bounds_min_y(s, k, s.len() as int)
                &&& b.max.x as int == bounds_max_x(s, k, s.len() as int)
                &&& b.max.y as int == bounds_max_y(s, k, s.len() as int)
                &&& b.min.z == 0 && b.max.z == 0
            },
        },
{
    let n = store.particles.len();
    if n == 0 {
        return None;
    }
    let a = n / 1000;
    let acc: usize = if a < 1 {
        1
    } else if a > 10 {
        10
    } else {
        a
    };
    proof {
        assert(acc as int == stride_of(n as int));
    }
    let mut min_x: i64 = 0;
    let mut min_y: i64 = 0;
    let mut max_x: i64 = 0;
    let mut max_y: i64 = 0;
    let mut i: usize = 0;
    while i < n
        invariant
            n == store.particles@.len(),
            0 <= i <= n,
            1 <= acc <= 10,
            min_x as int == bounds_min_x(store.particles@, acc as int, i as int),
            min_y as int == bounds_min_y(store.particles@, acc as int, i as int),
            max_x as int == bounds_max_x(store.particles@, acc as int, i as int),
            max_y as int == bounds_max_y(store.particles@, acc as int, i as int),
        decreases n - i,
    {
        if i % acc == 0 {
            let pos = store.particles[i].0.start_pos;
            if pos.x < min_x {
                min_x = pos.x;
            }
            if pos.y < min_y {
                min_y = pos.y;
            }
            if pos.x > max_x {
                max_x = pos.x;
            }
            if pos.y > max_y {
                max_y = pos.y;
            }
        }
        i = i + 1;
    }
    Some(
        Aabb {
            min: Vec3 { x: min_x, y: min_y, z: 0 },
            max: Vec3 { x: max_x, y: max_y, z: 0 },
        },
    )
}

/// Every particle the estimator sampled lies within the estimated box.
pub proof fn lemma_bounds_contain_sampled(
    s: Seq<(Particle, InstanceData)>,
    stride: int,
    n: int,
    j: int,
)
    requires
        1 <= stride,
        0 <= j < n <= s.len(),
        j % stride == 0,
    ensures
        bounds_min_x(s, stride, n) <= s[j].0.start_pos.x as int,
        s[j].0.start_pos.x as int <= bounds_max_x(s, stride, n),
        bounds_min_y(s, stride, n) <= s[j].0.start_pos.y as int,
        s[j].0.start_pos.y as int <= bounds_max_y(s, stride, n),
    decreases n,
{
    if j < n - 1 {
        lemma_bounds_contain_sampled(s, stride, n - 1, j);
    }
}

/// With only a color curve present, a tick keeps the scale exactly the
/// spawn-sampled value.
pub proof fn lemma_color_only_keeps_scale(p: Particle, cc: ColorCurve, delta: int)
    ensures
        advanced_particle(p, None, Some(cc), delta).scale == p.scale,
{
}

/// With only a scale curve present, a tick keeps the color exactly the
/// spawn-sampled value.
pub proof fn lemma_scale_only_keeps_color(p: Particle, sc: ScalarCurve, delta: int)
    ensures
        advanced_particle(p, Some(sc), None, delta).color == p.color,
{
}

} // verus!
