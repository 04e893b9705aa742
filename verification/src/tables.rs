//! Sampled curves for the functions that integer arithmetic cannot compute:
//! the sine, the arctangent and four power curves.
//!
//! The library does not evaluate these functions. Whoever builds a `Tables`
//! value supplies their samples, and the library looks them up. Everything
//! proved about shading holds for every set of samples that `Tables::new`
//! accepts.
use vstd::prelude::*;
use crate::fixed::{
    abs_wide, clamp01, lemma_trunc_div_bound, magnitude, spec_clamp01, trunc_div, ONE,
};

verus! {

/// The number of samples of the sine, spread evenly over one period.
pub const WAVE_LEN: usize = 4096;

/// The number of samples of a curve over the interval from zero to one, both
/// ends included.
pub const CURVE_LEN: usize = 1025;

/// The length of one period of the sine, as a fixed-point angle in radians.
pub const TWO_PI: i64 = 6_283_185;

/// Whether every sample lies between `lo` and `hi`.
pub open spec fn samples_within(s: Seq<i64>, lo: int, hi: int) -> bool {
    forall|k: int| 0 <= k < s.len() ==> lo <= #[trigger] s[k] <= hi
}

/// Whether `s` can serve as one period of the sine: the right number of
/// samples, each between minus one and one, zero at the start of the period
/// and one a quarter of a period later.
pub open spec fn valid_wave(s: Seq<i64>) -> bool {
    &&& s.len() == WAVE_LEN
    &&& samples_within(s, -(ONE as int), ONE as int)
    &&& s[0] == 0
    &&& s[WAVE_LEN as int / 4] == ONE
}

/// Whether `s` can serve as a curve over the interval from zero to one with
/// values between zero and `hi`.
pub open spec fn valid_curve(s: Seq<i64>, hi: int) -> bool {
    &&& s.len() == CURVE_LEN
    &&& samples_within(s, 0, hi)
}

/// The sample of the sine that stands for the angle `x`: the period is cut
/// into `WAVE_LEN` equal steps, and the angle falls into one of them.
pub open spec fn wave_index(x: int) -> int {
    ((x * WAVE_LEN) / (TWO_PI as int)) % (WAVE_LEN as int)
}

/// The index a quarter of a period after `k`.
pub open spec fn quarter_later(k: int) -> int {
    (k + WAVE_LEN as int / 4) % (WAVE_LEN as int)
}

/// The sample of a curve that stands for the argument `q`, which counts as
/// the nearer end where it lies outside the interval from zero to one.
pub open spec fn curve_index(q: int) -> int {
    (spec_clamp01(q) * (CURVE_LEN - 1)) / (ONE as int)
}

/// The angle of the point `(x, y)` seen from the origin, divided by pi, read
/// from the samples `arctan` of the arctangent over the interval from zero to
/// one. The point is first folded into the first octant, where the ratio of
/// its coordinates is at most one, and the angle is then unfolded again.
pub open spec fn atan2_from(arctan: Seq<i64>, y: int, x: int) -> int {
    let ay = magnitude(y);
    let ax = magnitude(x);
    let base = if ay == 0 && ax == 0 {
        0
    } else if ay <= ax {
        arctan[curve_index(trunc_div(ay * ONE, ax))] as int
    } else {
        ONE / 2 - arctan[curve_index(trunc_div(ax * ONE, ay))]
    };
    let half = if x >= 0 {
        base
    } else {
        ONE - base
    };
    if y >= 0 {
        half
    } else {
        -half
    }
}

/// The four power curves that the surface appearances use, by exponent.
#[derive(Clone, Copy, Debug, PartialEq, Eq, Structural)]
pub enum Exponent {
    /// The exponent 1.2.
    SixFifths,
    /// The exponent 1.3.
    ThirteenTenths,
    /// The exponent 1.5.
    ThreeHalves,
    /// The exponent 1.6.
    EightFifths,
}

/// The sampled curves.
pub struct Tables {
    sine: Vec<i64>,
    arctan: Vec<i64>,
    pow_1_2: Vec<i64>,
    pow_1_3: Vec<i64>,
    pow_1_5: Vec<i64>,
    pow_1_6: Vec<i64>,
}

impl Tables {
    /// The samples of one period of the sine.
    pub closed spec fn sine_samples(&self) -> Seq<i64> {
        self.sine@
    }

    /// The samples of the arctangent, divided by pi, over the interval from
    /// zero to one.
    pub closed spec fn arctan_samples(&self) -> Seq<i64> {
        self.arctan@
    }

    /// The samples of the power curve with exponent `e` over the interval
    /// from zero to one.
    pub closed spec fn power_samples(&self, e: Exponent) -> Seq<i64> {
        match e {
            Exponent::SixFifths => self.pow_1_2@,
            Exponent::ThirteenTenths => self.pow_1_3@,
            Exponent::ThreeHalves => self.pow_1_5@,
            Exponent::EightFifths => self.pow_1_6@,
        }
    }

    /// Whether every set of samples is valid for the function it stands for.
    pub open spec fn wf(&self) -> bool {
        &&& valid_wave(self.sine_samples())
        &&& valid_curve(self.arctan_samples(), ONE as int / 4)
        &&& forall|e: Exponent| valid_curve(#[trigger] self.power_samples(e), ONE as int)
    }

    #[verifier::type_invariant]
    spec fn inv(&self) -> bool {
        self.wf()
    }

    /// The sine of the angle `x`, in radians.
    pub open spec fn spec_sin(&self, x: int) -> int {
        self.sine_samples()[wave_index(x)] as int
    }

    /// The cosine of the angle `x`, in radians: the sine a quarter of a
    /// period later.
    pub open spec fn spec_cos(&self, x: int) -> int {
        self.sine_samples()[quarter_later(wave_index(x))] as int
    }

    /// `q` raised to the power `e`, for `q` between zero and one.
    pub open spec fn spec_pow(&self, e: Exponent, q: int) -> int {
        self.power_samples(e)[curve_index(q)] as int
    }

    /// The angle of the point `(x, y)` seen from the origin, divided by pi.
    pub open spec fn spec_atan2_pi(&self, y: int, x: int) -> int {
        atan2_from(self.arctan_samples(), y, x)
    }

    /// At the angle zero the sine is zero and the cosine is one.
    pub proof fn lemma_angle_zero(&self)
        requires
            self.wf(),
        ensures
            self.spec_sin(0) == 0,
            self.spec_cos(0) == ONE,
    {
    }

    /// Takes the samples if each set is valid for the function it stands for.
    pub fn new(
        sine: Vec<i64>,
        arctan: Vec<i64>,
        pow_1_2: Vec<i64>,
        pow_1_3: Vec<i64>,
        pow_1_5: Vec<i64>,
        pow_1_6: Vec<i64>,
    ) -> (r: Option<Tables>)
        ensures
            r is Some <==> {
                &&& valid_wave(sine@)
                &&& valid_curve(arctan@, ONE as int / 4)
                &&& valid_curve(pow_1_2@, ONE as int)
                &&& valid_curve(pow_1_3@, ONE as int)
                &&& valid_curve(pow_1_5@, ONE as int)
                &&& valid_curve(pow_1_6@, ONE as int)
            },
            r matches Some(t) ==> {
                &&& t.wf()
                &&& t.sine_samples() == sine@
                &&& t.arctan_samples() == arctan@
                &&& t.power_samples(Exponent::SixFifths) == pow_1_2@
                &&& t.power_samples(Exponent::ThirteenTenths) == pow_1_3@
                &&& t.power_samples(Exponent::ThreeHalves) == pow_1_5@
                &&& t.power_samples(Exponent::EightFifths) == pow_1_6@
            },
    {
        if sine.len() != WAVE_LEN || !all_within(&sine, -ONE, ONE) {
            return None;
        }
        if sine[0] != 0 || sine[WAVE_LEN / 4] != ONE {
            return None;
        }
        if !is_curve(&arctan, ONE / 4) || !is_curve(&pow_1_2, ONE) || !is_curve(&pow_1_3, ONE) {
            return None;
        }
        if !is_curve(&pow_1_5, ONE) || !is_curve(&pow_1_6, ONE) {
            return None;
        }
        Some(Tables { sine, arctan, pow_1_2, pow_1_3, pow_1_5, pow_1_6 })
    }

    /// The sine of the angle `x`, in radians.
    pub fn sin(&self, x: i64) -> (r: i64)
        ensures
            r == self.spec_sin(x as int),
            -ONE <= r <= ONE,
    {
        proof {
            use_type_invariant(self);
        }
        self.sine[wave_step(x)]
    }

    /// The cosine of the angle `x`, in radians.
    pub fn cos(&self, x: i64) -> (r: i64)
        ensures
            r == self.spec_cos(x as int),
            -ONE <= r <= ONE,
    {
        proof {
            use_type_invariant(self);
        }
        let k: usize = wave_step(x);
        self.sine[(k + WAVE_LEN / 4) % WAVE_LEN]
    }

    /// `q` raised to the power `e`; `q` counts as the nearer end where it
    /// lies outside the interval from zero to one.
    pub fn pow(&self, e: Exponent, q: i64) -> (r: i64)
        ensures
            r == self.spec_pow(e, q as int),
            0 <= r <= ONE,
    {
        proof {
            use_type_invariant(self);
            assert(valid_curve(self.power_samples(e), ONE as int));
        }
        let k: usize = curve_step(q);
        match e {
            Exponent::SixFifths => self.pow_1_2[k],
            Exponent::ThirteenTenths => self.pow_1_3[k],
            Exponent::ThreeHalves => self.pow_1_5[k],
            Exponent::EightFifths => self.pow_1_6[k],
        }
    }

    /// The angle of the point `(x, y)` seen from the origin, divided by pi:
    /// zero along the positive x axis, one half along the positive y axis,
    /// and zero for the origin itself.
    pub fn atan2_pi(&self, y: i64, x: i64) -> (r: i64)
        ensures
            r == self.spec_atan2_pi(y as int, x as int),
            -ONE <= r <= ONE,
    {
        proof {
            use_type_invariant(self);
            lemma_atan2_range(self.arctan@, y as int, x as int);
        }
        let ay: i128 = abs_wide(y);
        let ax: i128 = abs_wide(x);
        let base: i64 = if ay == 0 && ax == 0 {
            0
        } else if ay <= ax {
            let q: i128 = ay * 1_000_000 / ax;
            proof {
                lemma_octant_ratio(ay as int, ax as int);
            }
            self.arctan[curve_step(q as i64)]
        } else {
            let q: i128 = ax * 1_000_000 / ay;
            proof {
                lemma_octant_ratio(ax as int, ay as int);
            }
            ONE / 2 - self.arctan[curve_step(q as i64)]
        };
        let half: i64 = if x >= 0 {
            base
        } else {
            ONE - base
        };
        if y >= 0 {
            half
        } else {
            -half
        }
    }
}

/// The index of a curve's sample is an index into the curve.
pub proof fn lemma_curve_index(q: int)
    ensures
        0 <= curve_index(q) < CURVE_LEN,
        0 <= wave_index(q) < WAVE_LEN,
        0 <= quarter_later(wave_index(q)) < WAVE_LEN,
{
}

/// The ratio of the smaller to the larger coordinate is between zero and one.
proof fn lemma_octant_ratio(small: int, large: int)
    requires
        0 <= small <= large,
        large > 0,
    ensures
        0 <= trunc_div(small * ONE, large) <= ONE,
{
    lemma_trunc_div_bound(small * ONE, large, ONE as int);
}

/// The angle over pi lies between minus one and one.
pub proof fn lemma_atan2_range(arctan: Seq<i64>, y: int, x: int)
    requires
        valid_curve(arctan, ONE as int / 4),
    ensures
        -(ONE as int) <= atan2_from(arctan, y, x) <= ONE,
{
    let ay = magnitude(y);
    let ax = magnitude(x);
    if ay == 0 && ax == 0 {
    } else if ay <= ax {
        lemma_curve_index(trunc_div(ay * ONE, ax));
    } else {
        lemma_curve_index(trunc_div(ax * ONE, ay));
    }
}

/// Whether every element of `v` lies between `lo` and `hi`.
fn all_within(v: &Vec<i64>, lo: i64, hi: i64) -> (ok: bool)
    ensures
        ok == samples_within(v@, lo as int, hi as int),
{
    let mut k: usize = 0;
    while k < v.len()
        invariant
            k <= v.len(),
            forall|j: int| 0 <= j < k ==> lo <= #[trigger] v@[j] <= hi,
        decreases v.len() - k,
    {
        if v[k] < lo || v[k] > hi {
            return false;
        }
        k = k + 1;
    }
    true
}

/// Whether `v` can serve as a curve with values between zero and `hi`.
fn is_curve(v: &Vec<i64>, hi: i64) -> (ok: bool)
    ensures
        ok == valid_curve(v@, hi as int),
{
    v.len() == CURVE_LEN && all_within(v, 0, hi)
}

/// The index of the sample of the sine that stands for the angle `x`.
fn wave_step(x: i64) -> (k: usize)
    ensures
        k == wave_index(x as int),
        k < WAVE_LEN,
{
    let p: i128 = x as i128 * 4096;
    if p >= 0 {
        let q: i128 = p / 6_283_185;
        (q % 4096) as usize
    } else {
        let m: i128 = -p;
        let up: i128 = (m + 6_283_184) / 6_283_185;
        let back: i128 = up % 4096;
        if back == 0 {
            0
        } else {
            (4096 - back) as usize
        }
    }
}

/// The index of the sample of a curve that stands for the argument `q`.
fn curve_step(q: i64) -> (k: usize)
    ensures
        k == curve_index(q as int),
        k < CURVE_LEN,
{
    let w: i64 = clamp01(q);
    (w * 1024 / 1_000_000) as usize
}

} // verus!
