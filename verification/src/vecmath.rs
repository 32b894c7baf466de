//! Small fixed-point vector and color types.
//!
//! Components are milli-unit scalars as in [`crate::fixed`]. `Vec4` packs a
//! particle's linear velocity (x, y, z) together with its angular velocity
//! (w). `Rgba` holds linear color channels, `1000` being full intensity.

use crate::fixed::{
    absi, fmul, isqrt, lemma_fmul_mag, lemma_sdiv_mag, mul_fp, sdiv, sqrt_floor, SCALE,
};
use vstd::prelude::*;

verus! {

#[derive(Clone, Copy, Debug, PartialEq, Eq, Structural)]
pub struct Vec2 {
    pub x: i64,
    pub y: i64,
}

#[derive(Clone, Copy, Debug, PartialEq, Eq, Structural)]
pub struct Vec3 {
    pub x: i64,
    pub y: i64,
    pub z: i64,
}

#[derive(Clone, Copy, Debug, PartialEq, Eq, Structural)]
pub struct Vec4 {
    pub x: i64,
    pub y: i64,
    pub z: i64,
    pub w: i64,
}

#[derive(Clone, Copy, Debug, PartialEq, Eq, Structural)]
pub struct Rgba {
    pub red: i64,
    pub green: i64,
    pub blue: i64,
    pub alpha: i64,
}

impl Vec2 {
    pub open spec fn wf_within(self, m: int) -> bool {
        absi(self.x as int) <= m && absi(self.y as int) <= m
    }

    pub fn zero() -> (r: Vec2)
        ensures
            r == (Vec2 { x: 0, y: 0 }),
    {
        Vec2 { x: 0, y: 0 }
    }
}

impl Vec3 {
    pub open spec fn wf_within(self, m: int) -> bool {
        absi(self.x as int) <= m && absi(self.y as int) <= m && absi(self.z as int) <= m
    }
}

impl Rgba {
    pub open spec fn wf_within(self, m: int) -> bool {
        absi(self.red as int) <= m && absi(self.green as int) <= m && absi(self.blue as int)
            <= m && absi(self.alpha as int) <= m
    }

    /// Runtime check of `wf_within`, for callers outside the proof
    /// system.
    pub fn validate(&self, m: i64) -> (r: bool)
        requires
            0 <= m,
        ensures
            r == self.wf_within(m as int),
    {
        -m <= self.red && self.red <= m && -m <= self.green && self.green <= m && -m <= self.blue
            && self.blue <= m && -m <= self.alpha && self.alpha <= m
    }

    /// Full-intensity opaque white, the fallback base color.
    pub fn white() -> (r: Rgba)
        ensures
            r == (Rgba { red: SCALE, green: SCALE, blue: SCALE, alpha: SCALE }),
    {
        Rgba { red: SCALE, green: SCALE, blue: SCALE, alpha: SCALE }
    }
}

/// X component of `d` rotated by the unit-ish vector `r` (complex product).
pub open spec fn rot2_x(d: Vec2, r: Vec2) -> int {
    fmul(d.x as int, r.x as int) - fmul(d.y as int, r.y as int)
}

/// Y component of `d` rotated by `r`.
pub open spec fn rot2_y(d: Vec2, r: Vec2) -> int {
    fmul(d.x as int, r.y as int) + fmul(d.y as int, r.x as int)
}

/// Rotates `d` by the rotor `r`, the spawner's rightward axis in
/// (cosine, sine) form.
pub fn rotate2(d: Vec2, r: Vec2) -> (res: Vec2)
    requires
        d.wf_within(2_000_000),
        r.wf_within(2_000_000),
    ensures
        res.x as int == rot2_x(d, r),
        res.y as int == rot2_y(d, r),
        res.wf_within(8_000_000_000),
{
    proof {
        lemma_fmul_mag(d.x as int, r.x as int, 2_000_000, 2_000_000);
        lemma_fmul_mag(d.y as int, r.y as int, 2_000_000, 2_000_000);
        lemma_fmul_mag(d.x as int, r.y as int, 2_000_000, 2_000_000);
        lemma_fmul_mag(d.y as int, r.x as int, 2_000_000, 2_000_000);
    }
    Vec2 { x: mul_fp(d.x, r.x) - mul_fp(d.y, r.y), y: mul_fp(d.x, r.y) + mul_fp(d.y, r.x) }
}

/// Squared length of a 2D vector.
pub open spec fn len2_sq(v: Vec2) -> int {
    v.x as int * v.x as int + v.y as int * v.y as int
}

/// X component of the normalized vector: `x` scaled so the vector has
/// length `SCALE`, by the floor square root of the squared length.
pub open spec fn norm2_x(v: Vec2) -> int {
    if v.x == 0 && v.y == 0 {
        0
    } else {
        sdiv(v.x as int * SCALE as int, sqrt_floor(len2_sq(v)))
    }
}

pub open spec fn norm2_y(v: Vec2) -> int {
    if v.x == 0 && v.y == 0 {
        0
    } else {
        sdiv(v.y as int * SCALE as int, sqrt_floor(len2_sq(v)))
    }
}

/// Scales `v` to unit length (`SCALE`), or returns zero for the zero
/// vector. Each resulting component has magnitude at most `SCALE`.
pub fn normalize_or_zero2(v: Vec2) -> (res: Vec2)
    requires
        v.wf_within(1_000_000),
    ensures
        res.x as int == norm2_x(v),
        res.y as int == norm2_y(v),
        res.wf_within(SCALE as int),
{
    if v.x == 0 && v.y == 0 {
        return Vec2 { x: 0, y: 0 };
    }
    proof {
        assert(0 <= len2_sq(v) <= 2_000_000_000_000) by (nonlinear_arith)
            requires
                absi(v.x as int) <= 1_000_000,
                absi(v.y as int) <= 1_000_000,
        ;
        assert(len2_sq(v) >= 1) by (nonlinear_arith)
            requires
                !(v.x == 0 && v.y == 0),
        ;
    }
    let xa: u64 = if v.x >= 0 {
        v.x as u64
    } else {
        (-v.x) as u64
    };
    let ya: u64 = if v.y >= 0 {
        v.y as u64
    } else {
        (-v.y) as u64
    };
    proof {
        assert(xa as int * xa as int <= 1_000_000_000_000 && ya as int * ya as int
            <= 1_000_000_000_000) by (nonlinear_arith)
            requires
                0 <= xa as int <= 1_000_000,
                0 <= ya as int <= 1_000_000,
        ;
    }
    let n: u64 = xa * xa + ya * ya;
    proof {
        assert(xa as int * xa as int == v.x as int * v.x as int) by (nonlinear_arith)
            requires
                xa as int == absi(v.x as int),
        ;
        assert(ya as int * ya as int == v.y as int * v.y as int) by (nonlinear_arith)
            requires
                ya as int == absi(v.y as int),
        ;
        assert(n as int == len2_sq(v));
    }
    let len: u64 = isqrt(n);
    let ghost l = len as int;
    proof {
        assert(len >= 1) by {
            assert(1 * 1 <= n as int);
            if len == 0 {
                assert((n as int) < 1);
            }
        };
        assert(absi(v.x as int) <= l && absi(v.y as int) <= l) by (nonlinear_arith)
            requires
                n as int == v.x as int * v.x as int + v.y as int * v.y as int,
                l * l <= n as int,
                (n as int) < (l + 1) * (l + 1),
                0 <= l,
        ;
        assert(absi(v.x as int * SCALE as int) <= l * SCALE as int) by (nonlinear_arith)
            requires
                absi(v.x as int) <= l,
        ;
        assert(absi(v.y as int * SCALE as int) <= l * SCALE as int) by (nonlinear_arith)
            requires
                absi(v.y as int) <= l,
        ;
        lemma_sdiv_mag(v.x as int * SCALE as int, l, l * SCALE as int);
        lemma_sdiv_mag(v.y as int * SCALE as int, l, l * SCALE as int);
        assert(absi(sdiv(v.x as int * SCALE as int, l)) <= SCALE as int) by (nonlinear_arith)
            requires
                absi(sdiv(v.x as int * SCALE as int, l)) * l <= l * SCALE as int,
                l >= 1,
        ;
        assert(absi(sdiv(v.y as int * SCALE as int, l)) <= SCALE as int) by (nonlinear_arith)
            requires
                absi(sdiv(v.y as int * SCALE as int, l)) * l <= l * SCALE as int,
                l >= 1,
        ;
    }
    let rx: i64 = if v.x >= 0 {
        ((xa * 1000) / len) as i64
    } else {
        -(((xa * 1000) / len) as i64)
    };
    let ry: i64 = if v.y >= 0 {
        ((ya * 1000) / len) as i64
    } else {
        -(((ya * 1000) / len) as i64)
    };
    proof {
        assert(rx as int == sdiv(v.x as int * SCALE as int, l)) by {
            if v.x >= 0 {
                assert(xa as int * 1000 == v.x as int * SCALE as int);
            } else {
                assert(xa as int * 1000 == -(v.x as int * SCALE as int));
            }
        };
        assert(ry as int == sdiv(v.y as int * SCALE as int, l)) by {
            if v.y >= 0 {
                assert(ya as int * 1000 == v.y as int * SCALE as int);
            } else {
                assert(ya as int * 1000 == -(v.y as int * SCALE as int));
            }
        };
    }
    Vec2 { x: rx, y: ry }
}

/// Linear interpolation `a + (b - a) * t` with `t` in milli-units.
pub open spec fn lerp(a: int, b: int, t: int) -> int {
    a + fmul(b - a, t)
}

/// Interpolates between two milli-unit scalars; `t == 0` gives `a`
/// exactly and `t == SCALE` gives `b` exactly.
pub fn lerp_fp(a: i64, b: i64, t: i64) -> (r: i64)
    requires
        absi(a as int) <= 1_000_000_000,
        absi(b as int) <= 1_000_000_000,
        0 <= t <= SCALE,
    ensures
        r as int == lerp(a as int, b as int, t as int),
        absi(r as int) <= 3_000_000_000,
{
    proof {
        lemma_fmul_mag(b as int - a as int, t as int, 2_000_000_000, 1000);
    }
    a + mul_fp(b - a, t)
}

} // verus!
