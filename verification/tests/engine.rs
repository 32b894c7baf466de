use enoki2d::effect::{EmissionShape, Particle2dEffect};
use enoki2d::fixed::{decay_fp, isqrt, mul_fp, SCALE};
use enoki2d::particle::Particle;
use enoki2d::scene::{gizmos_active, SceneSettings};
use enoki2d::update::{
    calculcate_particle_bounds, clone_effect, create_particle, remove_finished_spawner,
    update_spawner, CadenceTimer, OneShot, ParticleEffectInstance, ParticleSpawnerState,
    ParticleStore, WorldFrame,
};
use enoki2d::values::{ColorCurve, ColorPoint, CurvePoint, Rval, RvalVec2, ScalarCurve};
use enoki2d::vecmath::{normalize_or_zero2, rotate2, Rgba, Vec2, Vec3, Vec4};

fn base_effect() -> Particle2dEffect {
    Particle2dEffect {
        spawn_rate: 100,
        spawn_amount: 10,
        emission_shape: EmissionShape::Point,
        direction: None,
        linear_speed: None,
        angular_speed: None,
        scale: Some(Rval { lo: 700, hi: 700 }),
        lifetime: Rval {
            lo: 10_000,
            hi: 10_000,
        },
        gravity_direction: None,
        gravity_speed: None,
        linear_damp: None,
        angular_damp: None,
        linear_acceleration: None,
        angular_acceleration: None,
        color: None,
        scale_curve: None,
        color_curve: None,
    }
}

fn still_particle() -> Particle {
    Particle {
        start_pos: Vec3 { x: 0, y: 0, z: 0 },
        direction: Vec2 { x: 1000, y: 0 },
        scale: 1000,
        gravity: Vec3 { x: 0, y: 0, z: 0 },
        duration: 1000,
        duration_fraction: 500,
        velocity: Vec4 {
            x: 500,
            y: 0,
            z: 0,
            w: 250,
        },
        color: Rgba {
            red: 1000,
            green: 1000,
            blue: 1000,
            alpha: 1000,
        },
        frame: 0,
        linear_acceleration: 0,
        linear_damp: 0,
        angular_acceleration: 0,
        angular_damp: 0,
    }
}

fn tick(
    store: &mut ParticleStore,
    state: &mut ParticleSpawnerState,
    effect: &Particle2dEffect,
    one_shot: Option<&OneShot>,
    delta: i64,
) {
    let mut instance = ParticleEffectInstance(None);
    clone_effect(&mut instance, Some(effect.clone()));
    let frame = WorldFrame::identity();
    update_spawner(store, state, &instance, &frame, one_shot, delta);
}

#[test]
fn fraction_monotone_and_expired_pruned() {
    let mut effect = base_effect();
    effect.spawn_amount = 50;
    effect.lifetime = Rval { lo: 400, hi: 400 };
    let mut store = ParticleStore::new();
    let mut state = ParticleSpawnerState::default();
    tick(&mut store, &mut state, &effect, None, 100);
    assert_eq!(store.particles.len(), 50);
    let before: Vec<i64> = store
        .particles
        .iter()
        .map(|(p, _)| p.duration_fraction)
        .collect();
    tick(&mut store, &mut state, &effect, None, 100);
    // The first burst got older tick over tick; a second burst joined it.
    for (p, _) in store.particles.iter() {
        assert!(p.duration_fraction < 1000);
        assert!(p.duration_fraction >= before.iter().copied().min().unwrap_or(0));
    }
    // After two more ticks every particle of the first bursts has
    // duration_fraction >= 1.0 and must be gone; each tick still spawns.
    tick(&mut store, &mut state, &effect, None, 100);
    tick(&mut store, &mut state, &effect, None, 100);
    for (p, _) in store.particles.iter() {
        assert!(p.duration_fraction < 1000);
    }
}

#[test]
fn capacity_is_checked_before_spawning() {
    let mut effect = base_effect();
    effect.spawn_amount = 100;
    effect.spawn_rate = 0;
    let mut store = ParticleStore::new();
    let mut state = ParticleSpawnerState::default();
    state.max_particles = 500;
    for _ in 0..5 {
        tick(&mut store, &mut state, &effect, None, 10);
    }
    assert_eq!(store.particles.len(), 500);
    // At capacity the whole tick is skipped, so the count stays put.
    tick(&mut store, &mut state, &effect, None, 10);
    assert_eq!(store.particles.len(), 500);
}

#[test]
fn constant_velocity_displacement_exact() {
    let p = still_particle();
    // age = 0.5 s; displacement.x = v.x * age = 0.5 * 0.5 = 0.25.
    let t = p.get_transform();
    assert_eq!(t.translation.x, 250);
    assert_eq!(t.translation.y, 0);
    assert_eq!(t.translation.z, 0);
    // rotation = w * age = 0.25 * 0.5 = 0.125 rad.
    assert_eq!(t.rotation, 125);
    assert_eq!(t.scale, 1000);
}

#[test]
fn gravity_displacement_exact() {
    let mut p = still_particle();
    p.velocity = Vec4 {
        x: 0,
        y: 0,
        z: 0,
        w: 0,
    };
    p.gravity = Vec3 {
        x: 0,
        y: -1000,
        z: 0,
    };
    p.duration_fraction = 1000;
    // age = 1 s; displacement.y = -0.5 * g * age^2 = -0.5.
    let t = p.get_transform();
    assert_eq!(t.translation.y, -500);
    assert_eq!(t.translation.x, 0);
}

#[test]
fn color_curve_only_keeps_scale() {
    let mut effect = base_effect();
    effect.color_curve = Some(ColorCurve {
        points: vec![
            ColorPoint {
                frac: 0,
                value: Rgba {
                    red: 1000,
                    green: 0,
                    blue: 0,
                    alpha: 1000,
                },
            },
            ColorPoint {
                frac: 1000,
                value: Rgba {
                    red: 0,
                    green: 0,
                    blue: 1000,
                    alpha: 1000,
                },
            },
        ],
    });
    let mut store = ParticleStore::new();
    let mut state = ParticleSpawnerState::default();
    tick(&mut store, &mut state, &effect, None, 100);
    tick(&mut store, &mut state, &effect, None, 100);
    assert!(!store.particles.is_empty());
    for (p, inst) in store.particles.iter() {
        assert_eq!(p.scale, 700);
        assert_eq!(inst.color, p.color);
    }
}

#[test]
fn scale_curve_only_keeps_color() {
    let mut effect = base_effect();
    effect.color = Some(Rgba {
        red: 123,
        green: 456,
        blue: 789,
        alpha: 1000,
    });
    effect.scale_curve = Some(ScalarCurve {
        points: vec![
            CurvePoint {
                frac: 0,
                value: 1000,
            },
            CurvePoint {
                frac: 1000,
                value: 0,
            },
        ],
    });
    let mut store = ParticleStore::new();
    let mut state = ParticleSpawnerState::default();
    tick(&mut store, &mut state, &effect, None, 100);
    tick(&mut store, &mut state, &effect, None, 100);
    assert!(!store.particles.is_empty());
    for (p, _) in store.particles.iter() {
        assert_eq!(
            p.color,
            Rgba {
                red: 123,
                green: 456,
                blue: 789,
                alpha: 1000,
            }
        );
        // The scale curve is falling, so the spawn value was rewritten.
        assert!(p.scale < 1000);
    }
}

#[test]
fn bounds_cover_sampled_particles_in_unit_disc() {
    let mut effect = base_effect();
    effect.spawn_amount = 500;
    effect.emission_shape = EmissionShape::Circle(1000);
    let mut store = ParticleStore::new();
    let mut state = ParticleSpawnerState::default();
    tick(&mut store, &mut state, &effect, None, 100);
    assert_eq!(store.particles.len(), 500);
    let aabb = calculcate_particle_bounds(&store).expect("store is not empty");
    // 500 particles keep the stride at 1: every particle is sampled and
    // must be inside the box.
    for (p, _) in store.particles.iter() {
        assert!(p.start_pos.x.abs() <= 1000);
        assert!(p.start_pos.y.abs() <= 1000);
        assert!(aabb.min.x <= p.start_pos.x && p.start_pos.x <= aabb.max.x);
        assert!(aabb.min.y <= p.start_pos.y && p.start_pos.y <= aabb.max.y);
    }
    assert_eq!(aabb.min.z, 0);
    assert_eq!(aabb.max.z, 0);
}

#[test]
fn bounds_absent_for_empty_store() {
    let store = ParticleStore::new();
    assert!(calculcate_particle_bounds(&store).is_none());
}

#[test]
fn single_long_tick_spawns_exactly_one_burst() {
    let mut effect = base_effect();
    effect.spawn_rate = 100;
    effect.spawn_amount = 1000;
    let mut store = ParticleStore::new();
    let mut state = ParticleSpawnerState::default();
    // One 0.3 s tick spans three periods but fires at most once.
    tick(&mut store, &mut state, &effect, None, 300);
    assert_eq!(store.particles.len(), 1000);
}

#[test]
fn one_shot_deactivates_after_first_burst() {
    let mut effect = base_effect();
    effect.spawn_amount = 20;
    let one_shot = OneShot::Deactivate;
    let mut store = ParticleStore::new();
    let mut state = ParticleSpawnerState::default();
    tick(&mut store, &mut state, &effect, Some(&one_shot), 100);
    assert_eq!(store.particles.len(), 20);
    assert!(!state.active);
    for _ in 0..5 {
        tick(&mut store, &mut state, &effect, Some(&one_shot), 100);
    }
    assert!(!state.active);
    assert_eq!(store.particles.len(), 20);
}

#[test]
fn despawn_flag_requires_inactive_and_empty() {
    let empty = ParticleStore::new();
    let mut nonempty = ParticleStore::new();
    let mut state = ParticleSpawnerState::default();
    let mut effect = base_effect();
    effect.spawn_amount = 1;
    tick(&mut nonempty, &mut state, &effect, None, 100);
    assert_eq!(nonempty.particles.len(), 1);

    let inactive = ParticleSpawnerState {
        active: false,
        ..ParticleSpawnerState::default()
    };
    let active = ParticleSpawnerState::default();
    assert!(remove_finished_spawner(&OneShot::Despawn, &inactive, &empty));
    assert!(!remove_finished_spawner(
        &OneShot::Despawn,
        &inactive,
        &nonempty
    ));
    assert!(!remove_finished_spawner(&OneShot::Despawn, &active, &empty));
    assert!(!remove_finished_spawner(
        &OneShot::Deactivate,
        &inactive,
        &empty
    ));
}

#[test]
fn missing_effect_is_a_silent_no_op() {
    let mut store = ParticleStore::new();
    let mut state = ParticleSpawnerState::default();
    let instance = ParticleEffectInstance(None);
    let frame = WorldFrame::identity();
    update_spawner(&mut store, &mut state, &instance, &frame, None, 100);
    assert!(store.particles.is_empty());
    assert!(state.active);
}

#[test]
fn clone_effect_attaches_a_copy() {
    let mut instance = ParticleEffectInstance(None);
    clone_effect(&mut instance, None);
    assert!(instance.0.is_none());
    clone_effect(&mut instance, Some(base_effect()));
    let held = instance.0.as_ref().expect("effect attached");
    assert_eq!(held.spawn_rate, 100);
    assert_eq!(held.spawn_amount, 10);
}

#[test]
fn zero_lifetime_is_clamped_strictly_positive() {
    let mut effect = base_effect();
    effect.lifetime = Rval { lo: 0, hi: 0 };
    let frame = WorldFrame::identity();
    let p = create_particle(&effect, &frame);
    assert_eq!(p.duration, 1);
    assert_eq!(p.duration_fraction, 0);
}

#[test]
fn sampled_fields_stay_in_their_ranges() {
    let mut effect = base_effect();
    effect.linear_speed = Some(Rval { lo: 200, hi: 300 });
    effect.angular_speed = Some(Rval { lo: -50, hi: 50 });
    effect.scale = Some(Rval { lo: 400, hi: 600 });
    effect.direction = Some(RvalVec2::fixed(1000, 0));
    let frame = WorldFrame::identity();
    for _ in 0..50 {
        let p = create_particle(&effect, &frame);
        assert!((400..=600).contains(&p.scale));
        assert!((-50..=50).contains(&p.velocity.w));
        // A fixed unit direction with the identity frame: the packed
        // linear velocity is exactly the sampled speed.
        assert_eq!(p.direction, Vec2 { x: 1000, y: 0 });
        assert!((200..=300).contains(&p.velocity.x));
        assert_eq!(p.velocity.y, 0);
        assert_eq!(p.velocity.z, 0);
    }
}

#[test]
fn fixed_range_sampling_is_exact() {
    let r = Rval::fixed(5);
    for _ in 0..20 {
        assert_eq!(r.rand(), 5);
    }
    let r2 = Rval { lo: 3, hi: 7 };
    for _ in 0..50 {
        let v = r2.rand();
        assert!((3..=7).contains(&v));
    }
}

#[test]
fn cadence_timer_accumulates_and_fires() {
    let mut t = CadenceTimer::new();
    t.set_period(100);
    t.tick(50);
    assert!(!t.fired);
    assert_eq!(t.elapsed, 50);
    t.tick(60);
    assert!(t.fired);
    assert_eq!(t.elapsed, 10);
    // A zero period fires every tick.
    let mut z = CadenceTimer::new();
    z.tick(1);
    assert!(z.fired);
    assert_eq!(z.elapsed, 0);
}

#[test]
fn spawner_state_default_is_unbounded_and_active() {
    let s = ParticleSpawnerState::default();
    assert!(s.active);
    assert_eq!(s.max_particles, u32::MAX);
    assert_eq!(s.timer.period, 0);
    assert_eq!(s.timer.elapsed, 0);
}

#[test]
fn scene_settings_default_shows_gizmos() {
    let s = SceneSettings::default();
    assert!(s.show_gizmos);
    assert!(gizmos_active(&s));
    assert!(!gizmos_active(&SceneSettings { show_gizmos: false }));
}

#[test]
fn scalar_curve_interpolates_and_clamps() {
    let curve = ScalarCurve {
        points: vec![
            CurvePoint { frac: 0, value: 0 },
            CurvePoint {
                frac: 1000,
                value: 1000,
            },
        ],
    };
    assert_eq!(curve.lerp(0), 0);
    assert_eq!(curve.lerp(500), 500);
    assert_eq!(curve.lerp(250), 250);
    assert_eq!(curve.lerp(1000), 1000);
    assert_eq!(curve.lerp(5000), 1000);
}

#[test]
fn empty_curve_holds_constant_default() {
    let curve = ScalarCurve { points: vec![] };
    assert_eq!(curve.lerp(0), 0);
    assert_eq!(curve.lerp(700), 0);
    let color = ColorCurve { points: vec![] };
    let c = color.lerp(500);
    assert_eq!(
        c,
        Rgba {
            red: 0,
            green: 0,
            blue: 0,
            alpha: 0,
        }
    );
}

#[test]
fn color_curve_blends_channels() {
    let curve = ColorCurve {
        points: vec![
            ColorPoint {
                frac: 0,
                value: Rgba {
                    red: 1000,
                    green: 0,
                    blue: 0,
                    alpha: 1000,
                },
            },
            ColorPoint {
                frac: 1000,
                value: Rgba {
                    red: 0,
                    green: 0,
                    blue: 1000,
                    alpha: 1000,
                },
            },
        ],
    };
    let c = curve.lerp(250);
    assert_eq!(c.red, 750);
    assert_eq!(c.blue, 250);
    assert_eq!(c.green, 0);
    assert_eq!(c.alpha, 1000);
}

#[test]
fn fixed_point_arithmetic_is_exact() {
    assert_eq!(mul_fp(1500, 2000), 3000);
    assert_eq!(mul_fp(-1500, 2000), -3000);
    assert_eq!(mul_fp(1000, 777), 777);
    assert_eq!(isqrt(0), 0);
    assert_eq!(isqrt(10), 3);
    assert_eq!(isqrt(1_000_000), 1000);
    // No damping decays nothing; heavy damping decays almost everything.
    assert_eq!(decay_fp(0), SCALE);
    assert!(decay_fp(4_000_000_000) < 10);
}

#[test]
fn normalization_and_rotation_are_exact() {
    let n = normalize_or_zero2(Vec2 { x: 3000, y: 4000 });
    assert_eq!(n, Vec2 { x: 600, y: 800 });
    let z = normalize_or_zero2(Vec2 { x: 0, y: 0 });
    assert_eq!(z, Vec2 { x: 0, y: 0 });
    // A quarter-turn rotor maps the x axis onto the y axis.
    let r = rotate2(Vec2 { x: 1000, y: 0 }, Vec2 { x: 0, y: 1000 });
    assert_eq!(r, Vec2 { x: 0, y: 1000 });
}

#[test]
fn instance_data_mirrors_particle_after_tick() {
    let mut effect = base_effect();
    effect.color = Some(Rgba {
        red: 900,
        green: 100,
        blue: 100,
        alpha: 1000,
    });
    let mut store = ParticleStore::new();
    let mut state = ParticleSpawnerState::default();
    tick(&mut store, &mut state, &effect, None, 100);
    tick(&mut store, &mut state, &effect, None, 100);
    assert!(!store.particles.is_empty());
    for (p, inst) in store.particles.iter() {
        assert_eq!(inst.duration_fraction, p.duration_fraction);
        assert_eq!(inst.transform, p.get_transform());
        // Without a color curve the render color stays the spawn color.
        assert_eq!(
            inst.color,
            Rgba {
                red: 900,
                green: 100,
                blue: 100,
                alpha: 1000,
            }
        );
    }
}

#[test]
fn validation_accepts_sound_and_rejects_malformed_templates() {
    assert!(base_effect().validate());

    let mut reversed_range = base_effect();
    reversed_range.linear_speed = Some(Rval { lo: 10, hi: -10 });
    assert!(!reversed_range.validate());

    let mut negative_damp = base_effect();
    negative_damp.linear_damp = Some(Rval { lo: -5, hi: 5 });
    assert!(!negative_damp.validate());

    let mut unsorted_curve = base_effect();
    unsorted_curve.scale_curve = Some(ScalarCurve {
        points: vec![
            CurvePoint {
                frac: 500,
                value: 0,
            },
            CurvePoint {
                frac: 100,
                value: 1000,
            },
        ],
    });
    assert!(!unsorted_curve.validate());

    let mut empty_curve = base_effect();
    empty_curve.color_curve = Some(ColorCurve { points: vec![] });
    assert!(empty_curve.validate());

    let mut negative_rate = base_effect();
    negative_rate.spawn_rate = -1;
    assert!(!negative_rate.validate());
}

#[test]
fn circle_emission_stays_within_radius() {
    let mut effect = base_effect();
    effect.emission_shape = EmissionShape::Circle(2000);
    let frame = WorldFrame {
        translation: Vec3 {
            x: 500,
            y: -500,
            z: 7,
        },
        right: Vec2 { x: 1000, y: 0 },
    };
    for _ in 0..100 {
        let p = create_particle(&effect, &frame);
        assert!((p.start_pos.x - 500).abs() <= 2000);
        assert!((p.start_pos.y + 500).abs() <= 2000);
        assert_eq!(p.start_pos.z, 7);
    }
}
