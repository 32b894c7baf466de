//! Randomized values and keyframe curves.
//!
//! An effect's parameters are either fixed or sampled uniformly from a
//! closed range at spawn time ([`Rval`]), and two optional keyframe curves
//! modulate scale and color over a particle's normalized age. Curve
//! evaluation clamps out-of-range ages to the nearest endpoint and
//! interpolates linearly between neighboring keyframes; an empty keyframe
//! set evaluates to zero, holding the attribute at a constant default
//! rather than failing.

use crate::fixed::{absi, div_fp, lemma_sdiv_mag, sdiv, SCALE};
use crate::vecmath::{lerp, lerp_fp, Rgba, Vec2};
use vstd::prelude::*;

verus! {

/// Relies on rand::random_range: a uniformly distributed sample from the
/// thread-local generator within the given closed range; it panics only on
/// an empty range, which the precondition rules out. Only range
/// membership, which holds of every outcome, is stated.
#[verifier::external_body]
fn sample_range(lo: i64, hi: i64) -> (r: i64)
    requires
        lo <= hi,
    ensures
        lo <= r <= hi,
{
    rand::random_range(lo..=hi)
}

/// A scalar effect parameter, sampled uniformly in `[lo, hi]` once per
/// spawned particle; a fixed parameter has `lo == hi`.
#[derive(Clone, Copy, Debug, PartialEq, Eq, Structural)]
pub struct Rval {
    pub lo: i64,
    pub hi: i64,
}

impl Rval {
    pub open spec fn wf_within(self, m: int) -> bool {
        self.lo <= self.hi && absi(self.lo as int) <= m && absi(self.hi as int) <= m
    }

    /// A degenerate range holding a single value.
    pub fn fixed(v: i64) -> (r: Rval)
        ensures
            r == (Rval { lo: v, hi: v }),
    {
        Rval { lo: v, hi: v }
    }

    /// Runtime check of `wf_within`, for callers outside the proof
    /// system.
    pub fn validate(&self, m: i64) -> (r: bool)
        requires
            0 <= m,
        ensures
            r == self.wf_within(m as int),
    {
        self.lo <= self.hi && -m <= self.lo && self.lo <= m && -m <= self.hi && self.hi <= m
    }

    /// Draws one sample from the range.
    pub fn rand(&self) -> (r: i64)
        requires
            self.lo <= self.hi,
        ensures
            self.lo <= r <= self.hi,
    {
        sample_range(self.lo, self.hi)
    }
}

/// A planar effect parameter sampled per component.
#[derive(Clone, Copy, Debug, PartialEq, Eq, Structural)]
pub struct RvalVec2 {
    pub x: Rval,
    pub y: Rval,
}

impl RvalVec2 {
    pub open spec fn wf_within(self, m: int) -> bool {
        self.x.wf_within(m) && self.y.wf_within(m)
    }

    pub fn fixed(x: i64, y: i64) -> (r: RvalVec2)
        ensures
            r == (RvalVec2 { x: Rval { lo: x, hi: x }, y: Rval { lo: y, hi: y } }),
    {
        RvalVec2 { x: Rval { lo: x, hi: x }, y: Rval { lo: y, hi: y } }
    }

    /// Runtime check of `wf_within`, for callers outside the proof
    /// system.
    pub fn validate(&self, m: i64) -> (r: bool)
        requires
            0 <= m,
        ensures
            r == self.wf_within(m as int),
    {
        self.x.validate(m) && self.y.validate(m)
    }

    /// Draws one planar sample, each component from its own range.
    pub fn rand(&self) -> (r: Vec2)
        requires
            self.x.lo <= self.x.hi,
            self.y.lo <= self.y.hi,
        ensures
            self.x.lo <= r.x <= self.x.hi,
            self.y.lo <= r.y <= self.y.hi,
    {
        Vec2 { x: sample_range(self.x.lo, self.x.hi), y: sample_range(self.y.lo, self.y.hi) }
    }
}

/// One scalar keyframe: the attribute holds `value` at normalized age
/// `frac` (milli-units of the `[0, 1]` lifetime).
#[derive(Clone, Copy, Debug, PartialEq, Eq, Structural)]
pub struct CurvePoint {
    pub frac: i64,
    pub value: i64,
}

/// One color keyframe.
#[derive(Clone, Copy, Debug, PartialEq, Eq, Structural)]
pub struct ColorPoint {
    pub frac: i64,
    pub value: Rgba,
}

/// Keyframes strictly ordered by normalized age, ages within `[0, SCALE]`.
pub open spec fn scalar_points_wf(ps: Seq<CurvePoint>) -> bool {
    &&& forall|i: int, j: int|
        0 <= i < j < ps.len() ==> (#[trigger] ps[i]).frac < (#[trigger] ps[j]).frac
    &&& forall|i: int|
        0 <= i < ps.len() ==> 0 <= (#[trigger] ps[i]).frac <= SCALE && absi(ps[i].value as int)
            <= 1_000_000
}

pub open spec fn color_points_wf(ps: Seq<ColorPoint>) -> bool {
    &&& forall|i: int, j: int|
        0 <= i < j < ps.len() ==> (#[trigger] ps[i]).frac < (#[trigger] ps[j]).frac
    &&& forall|i: int|
        0 <= i < ps.len() ==> 0 <= (#[trigger] ps[i]).frac <= SCALE && ps[i].value.wf_within(
            1_000_000,
        )
}

/// Interpolation parameter within the segment `[a, b]` for age `f`.
pub open spec fn seg_t(a: int, b: int, f: int) -> int
    recommends
        a < b,
{
    sdiv((f - a) * SCALE as int, b - a)
}

/// Piecewise-linear evaluation of a scalar keyframe sequence at normalized
/// age `f`: the nearest endpoint outside the covered range, the exact
/// keyframe value on a keyframe, and the linear blend between the two
/// neighboring keyframes otherwise. Empty keyframes evaluate to zero.
pub open spec fn scalar_curve_eval(ps: Seq<CurvePoint>, f: int) -> int
    decreases ps.len(),
{
    if ps.len() == 0 {
        0
    } else if ps.len() == 1 || f <= ps[0].frac {
        ps[0].value as int
    } else if f < ps[1].frac {
        lerp(ps[0].value as int, ps[1].value as int, seg_t(ps[0].frac as int, ps[1].frac as int, f))
    } else {
        scalar_curve_eval(ps.drop_first(), f)
    }
}

pub open spec fn color_curve_eval(ps: Seq<ColorPoint>, f: int) -> Rgba
    decreases ps.len(),
{
    if ps.len() == 0 {
        Rgba { red: 0, green: 0, blue: 0, alpha: 0 }
    } else if ps.len() == 1 || f <= ps[0].frac {
        ps[0].value
    } else if f < ps[1].frac {
        let t = seg_t(ps[0].frac as int, ps[1].frac as int, f);
        Rgba {
            red: lerp(ps[0].value.red as int, ps[1].value.red as int, t) as i64,
            green: lerp(ps[0].value.green as int, ps[1].value.green as int, t) as i64,
            blue: lerp(ps[0].value.blue as int, ps[1].value.blue as int, t) as i64,
            alpha: lerp(ps[0].value.alpha as int, ps[1].value.alpha as int, t) as i64,
        }
    } else {
        color_curve_eval(ps.drop_first(), f)
    }
}

/// A keyframe curve for a scalar attribute over normalized age.
#[derive(Clone, Debug)]
pub struct ScalarCurve {
    pub points: Vec<CurvePoint>,
}

/// A keyframe curve for the particle color over normalized age.
#[derive(Clone, Debug)]
pub struct ColorCurve {
    pub points: Vec<ColorPoint>,
}

impl ScalarCurve {
    pub open spec fn wf(self) -> bool {
        scalar_points_wf(self.points@)
    }

    pub open spec fn eval_spec(self, f: int) -> int {
        scalar_curve_eval(self.points@, f)
    }

    /// Evaluates the curve at normalized age `f`, clamping to the
    /// endpoints outside the keyframe range.
    pub fn lerp(&self, f: i64) -> (r: i64)
        requires
            self.wf(),
            0 <= f,
        ensures
            r as int == self.eval_spec(f as int),
    {
        let n = self.points.len();
        if n == 0 {
            return 0;
        }
        let mut i: usize = 0;
        proof {
            assert(self.points@.skip(0) =~= self.points@);
        }
        while i + 1 < n && self.points[i + 1].frac <= f
            invariant
                0 <= i < n,
                n == self.points@.len(),
                self.wf(),
                0 <= f,
                scalar_curve_eval(self.points@, f as int) == scalar_curve_eval(
                    self.points@.skip(i as int),
                    f as int,
                ),
                i > 0 ==> self.points@[i as int].frac <= f,
            decreases n - i,
        {
            proof {
                lemma_scalar_eval_step(self.points@, i as int, f as int);
            }
            i = i + 1;
        }
        let ghost s = self.points@.skip(i as int);
        proof {
            assert(s.len() == n - i);
            assert(s[0] == self.points@[i as int]);
        }
        if i + 1 == n {
            return self.points[i].value;
        }
        proof {
            assert(s[1] == self.points@[i as int + 1]);
        }
        if f <= self.points[i].frac {
            return self.points[i].value;
        }
        let a = self.points[i];
        let b = self.points[i + 1];
        let t = segment_t(a.frac, b.frac, f);
        proof {
            assert(scalar_curve_eval(s, f as int) == lerp(
                a.value as int,
                b.value as int,
                seg_t(a.frac as int, b.frac as int, f as int),
            ));
        }
        lerp_fp(a.value, b.value, t)
    }
}

impl ColorCurve {
    pub open spec fn wf(self) -> bool {
        color_points_wf(self.points@)
    }

    pub open spec fn eval_spec(self, f: int) -> Rgba {
        color_curve_eval(self.points@, f)
    }

    /// Evaluates the color curve at normalized age `f`.
    pub fn lerp(&self, f: i64) -> (r: Rgba)
        requires
            self.wf(),
            0 <= f,
        ensures
            r == self.eval_spec(f as int),
    {
        let n = self.points.len();
        if n == 0 {
            return Rgba { red: 0, green: 0, blue: 0, alpha: 0 };
        }
        let mut i: usize = 0;
        proof {
            assert(self.points@.skip(0) =~= self.points@);
        }
        while i + 1 < n && self.points[i + 1].frac <= f
            invariant
                0 <= i < n,
                n == self.points@.len(),
                self.wf(),
                0 <= f,
                color_curve_eval(self.points@, f as int) == color_curve_eval(
                    self.points@.skip(i as int),
                    f as int,
                ),
                i > 0 ==> self.points@[i as int].frac <= f,
            decreases n - i,
        {
            proof {
                lemma_color_eval_step(self.points@, i as int, f as int);
            }
            i = i + 1;
        }
        let ghost s = self.points@.skip(i as int);
        proof {
            assert(s.len() == n - i);
            assert(s[0] == self.points@[i as int]);
        }
        if i + 1 == n {
            return self.points[i].value;
        }
        proof {
            assert(s[1] == self.points@[i as int + 1]);
        }
        if f <= self.points[i].frac {
            return self.points[i].value;
        }
        let a = self.points[i];
        let b = self.points[i + 1];
        let t = segment_t(a.frac, b.frac, f);
        let ghost tt = seg_t(a.frac as int, b.frac as int, f as int);
        proof {
            assert(color_curve_eval(s, f as int) == (Rgba {
                red: lerp(a.value.red as int, b.value.red as int, tt) as i64,
                green: lerp(a.value.green as int, b.value.green as int, tt) as i64,
                blue: lerp(a.value.blue as int, b.value.blue as int, tt) as i64,
                alpha: lerp(a.value.alpha as int, b.value.alpha as int, tt) as i64,
            }));
        }
        Rgba {
            red: lerp_fp(a.value.red, b.value.red, t),
            green: lerp_fp(a.value.green, b.value.green, t),
            blue: lerp_fp(a.value.blue, b.value.blue, t),
            alpha: lerp_fp(a.value.alpha, b.value.alpha, t),
        }
    }
}

/// Interpolation parameter for an age strictly inside a segment.
fn segment_t(a: i64, b: i64, f: i64) -> (t: i64)
    requires
        0 <= a <= SCALE,
        0 <= b <= SCALE,
        a < f < b,
    ensures
        t as int == seg_t(a as int, b as int, f as int),
        0 <= t <= SCALE,
{
    let t = div_fp(f - a, b - a);
    proof {
        lemma_sdiv_mag((f - a) as int * SCALE as int, (b - a) as int, (b - a) as int * SCALE as int);
        assert(t as int <= SCALE as int) by (nonlinear_arith)
            requires
                t as int == sdiv((f - a) as int * SCALE as int, (b - a) as int),
                t as int >= 0,
                t as int * ((b - a) as int) <= absi((f - a) as int * SCALE as int),
                0 < (f - a) as int <= (b - a) as int,
                absi((f - a) as int * SCALE as int) == (f - a) as int * SCALE as int,
                (f - a) as int * SCALE as int <= (b - a) as int * SCALE as int,
        ;
    }
    t
}

/// The interpolation parameter stays within one unit for an age strictly
/// inside its segment.
pub proof fn lemma_seg_t_range(a: int, b: int, f: int)
    requires
        0 <= a,
        a < f < b,
    ensures
        0 <= seg_t(a, b, f) <= SCALE as int,
{
    let num = (f - a) * SCALE as int;
    assert(0 < (f - a) * 1000 && (f - a) * 1000 <= (b - a) * 1000) by (nonlinear_arith)
        requires
            a < f,
            f < b,
    ;
    assert(num == (f - a) * 1000);
    vstd::arithmetic::div_mod::lemma_div_pos_is_pos(num, b - a);
    vstd::arithmetic::div_mod::lemma_div_is_ordered(num, (b - a) * 1000, b - a);
    vstd::arithmetic::div_mod::lemma_div_multiples_vanish(1000, b - a);
}

/// Curve values never stray beyond one interpolation step outside the
/// keyframe value bound.
pub proof fn lemma_scalar_eval_bound(ps: Seq<CurvePoint>, f: int)
    requires
        scalar_points_wf(ps),
    ensures
        absi(scalar_curve_eval(ps, f)) <= 3_000_000,
    decreases ps.len(),
{
    if ps.len() == 0 {
    } else if ps.len() == 1 || f <= ps[0].frac {
        assert(absi(ps[0].value as int) <= 1_000_000);
    } else if f < ps[1].frac {
        assert(ps[0].frac < ps[1].frac);
        lemma_seg_t_range(ps[0].frac as int, ps[1].frac as int, f);
        crate::fixed::lemma_fmul_mag(
            ps[1].value as int - ps[0].value as int,
            seg_t(ps[0].frac as int, ps[1].frac as int, f),
            2_000_000,
            1000,
        );
    } else {
        assert(scalar_points_wf(ps.drop_first())) by {
            assert(forall|i: int, j: int|
                0 <= i < j < ps.drop_first().len() ==> (#[trigger] ps.drop_first()[i]).frac < (
                #[trigger] ps.drop_first()[j]).frac);
        };
        lemma_scalar_eval_bound(ps.drop_first(), f);
    }
}

pub proof fn lemma_color_eval_bound(ps: Seq<ColorPoint>, f: int)
    requires
        color_points_wf(ps),
    ensures
        color_curve_eval(ps, f).wf_within(3_000_000),
    decreases ps.len(),
{
    if ps.len() == 0 {
    } else if ps.len() == 1 || f <= ps[0].frac {
        assert(ps[0].value.wf_within(1_000_000));
    } else if f < ps[1].frac {
        assert(ps[0].frac < ps[1].frac);
        let t = seg_t(ps[0].frac as int, ps[1].frac as int, f);
        lemma_seg_t_range(ps[0].frac as int, ps[1].frac as int, f);
        crate::fixed::lemma_fmul_mag(
            ps[1].value.red as int - ps[0].value.red as int,
            t,
            2_000_000,
            1000,
        );
        crate::fixed::lemma_fmul_mag(
            ps[1].value.green as int - ps[0].value.green as int,
            t,
            2_000_000,
            1000,
        );
        crate::fixed::lemma_fmul_mag(
            ps[1].value.blue as int - ps[0].value.blue as int,
            t,
            2_000_000,
            1000,
        );
        crate::fixed::lemma_fmul_mag(
            ps[1].value.alpha as int - ps[0].value.alpha as int,
            t,
            2_000_000,
            1000,
        );
    } else {
        assert(color_points_wf(ps.drop_first())) by {
            assert(forall|i: int, j: int|
                0 <= i < j < ps.drop_first().len() ==> (#[trigger] ps.drop_first()[i]).frac < (
                #[trigger] ps.drop_first()[j]).frac);
        };
        lemma_color_eval_bound(ps.drop_first(), f);
    }
}

proof fn lemma_scalar_eval_step(ps: Seq<CurvePoint>, i: int, f: int)
    requires
        scalar_points_wf(ps),
        0 <= i,
        i + 1 < ps.len(),
        ps[i + 1].frac <= f,
    ensures
        scalar_curve_eval(ps.skip(i), f) == scalar_curve_eval(ps.skip(i + 1), f),
{
    let s = ps.skip(i);
    assert(s[0] == ps[i] && s[1] == ps[i + 1]);
    assert(s[0].frac < s[1].frac);
    assert(s.drop_first() =~= ps.skip(i + 1));
}

proof fn lemma_color_eval_step(ps: Seq<ColorPoint>, i: int, f: int)
    requires
        color_points_wf(ps),
        0 <= i,
        i + 1 < ps.len(),
        ps[i + 1].frac <= f,
    ensures
        color_curve_eval(ps.skip(i), f) == color_curve_eval(ps.skip(i + 1), f),
{
    let s = ps.skip(i);
    assert(s[0] == ps[i] && s[1] == ps[i + 1]);
    assert(s[0].frac < s[1].frac);
    assert(s.drop_first() =~= ps.skip(i + 1));
}


proof fn lemma_scalar_adjacent_sorted(ps: Seq<CurvePoint>, i: int, j: int)
    requires
        forall|k: int| 0 <= k < ps.len() - 1 ==> (#[trigger] ps[k]).frac < ps[k + 1].frac,
        0 <= i < j < ps.len(),
    ensures
        ps[i].frac < ps[j].frac,
    decreases j - i,
{
    if i + 1 < j {
        lemma_scalar_adjacent_sorted(ps, i, j - 1);
        assert(ps[j - 1].frac < ps[j].frac);
    }
}

proof fn lemma_color_adjacent_sorted(ps: Seq<ColorPoint>, i: int, j: int)
    requires
        forall|k: int| 0 <= k < ps.len() - 1 ==> (#[trigger] ps[k]).frac < ps[k + 1].frac,
        0 <= i < j < ps.len(),
    ensures
        ps[i].frac < ps[j].frac,
    decreases j - i,
{
    if i + 1 < j {
        lemma_color_adjacent_sorted(ps, i, j - 1);
        assert(ps[j - 1].frac < ps[j].frac);
    }
}

impl ScalarCurve {
    /// Runtime check of the curve invariant, for callers outside the
    /// proof system.
    pub fn validate(&self) -> (r: bool)
        ensures
            r == self.wf(),
    {
        let n = self.points.len();
        let mut i: usize = 0;
        while i < n
            invariant
                0 <= i <= n,
                n == self.points@.len(),
                forall|k: int|
                    0 <= k < i ==> 0 <= (#[trigger] self.points@[k]).frac <= SCALE && absi(
                        self.points@[k].value as int,
                    ) <= 1_000_000,
                forall|k: int|
                    0 <= k < i - 1 ==> (#[trigger] self.points@[k]).frac < self.points@[k
                        + 1].frac,
            decreases n - i,
        {
            let pt = self.points[i];
            if pt.frac < 0 || pt.frac > SCALE || pt.value < -1_000_000 || pt.value > 1_000_000 {
                return false;
            }
            if i > 0 && self.points[i - 1].frac >= pt.frac {
                return false;
            }
            i = i + 1;
        }
        proof {
            assert forall|a: int, b: int| 0 <= a < b < n implies (#[trigger] self.points@[a]).frac
                < (#[trigger] self.points@[b]).frac by {
                lemma_scalar_adjacent_sorted(self.points@, a, b);
            }
        }
        true
    }
}

impl ColorCurve {
    /// Runtime check of the curve invariant, for callers outside the
    /// proof system.
    pub fn validate(&self) -> (r: bool)
        ensures
            r == self.wf(),
    {
        let n = self.points.len();
        let mut i: usize = 0;
        while i < n
            invariant
                0 <= i <= n,
                n == self.points@.len(),
                forall|k: int|
                    0 <= k < i ==> 0 <= (#[trigger] self.points@[k]).frac <= SCALE
                        && self.points@[k].value.wf_within(1_000_000),
                forall|k: int|
                    0 <= k < i - 1 ==> (#[trigger] self.points@[k]).frac < self.points@[k
                        + 1].frac,
            decreases n - i,
        {
            let pt = self.points[i];
            let c = pt.value;
            if pt.frac < 0 || pt.frac > SCALE {
                return false;
            }
            if c.red < -1_000_000 || c.red > 1_000_000 || c.green < -1_000_000 || c.green
                > 1_000_000 || c.blue < -1_000_000 || c.blue > 1_000_000 || c.alpha < -1_000_000
                || c.alpha > 1_000_000 {
                return false;
            }
            if i > 0 && self.points[i - 1].frac >= pt.frac {
                return false;
            }
            i = i + 1;
        }
        proof {
            assert forall|a: int, b: int| 0 <= a < b < n implies (#[trigger] self.points@[a]).frac
                < (#[trigger] self.points@[b]).frac by {
                lemma_color_adjacent_sorted(self.points@, a, b);
            }
        }
        true
    }
}

} // verus!
