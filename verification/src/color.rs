//! Colours with 8-bit channels, and the two operations every surface
//! appearance is built from: blending two colours and dimming one.
use vstd::prelude::*;
use crate::fixed::{
    clamp01, fx_mul, lemma_fx_mul_unit, lemma_trunc_div_exact, lemma_trunc_div_monotone, lerp,
    magnitude, spec_clamp01, spec_fx_mul, spec_lerp, trunc_div, ONE,
};

verus! {

/// The mathematical model of a colour: three unbounded channel values.
pub struct Rgb {
    pub r: int,
    pub g: int,
    pub b: int,
}

/// One channel of a blend: the channel values are taken as fixed-point
/// numbers, interpolated by the weight limited to the interval from zero to
/// one, and the fraction is dropped.
pub open spec fn mix_channel(a: int, b: int, t: int) -> int {
    trunc_div(spec_lerp(a * ONE, b * ONE, spec_clamp01(t)), ONE as int)
}

/// One channel of a dimmed colour: the channel value times the factor, with
/// the fraction dropped.
pub open spec fn lit_channel(c: int, f: int) -> int {
    spec_fx_mul(c, f)
}

impl Rgb {
    /// Whether every channel is a value that eight bits can hold.
    pub open spec fn in_gamut(self) -> bool {
        &&& 0 <= self.r <= 255
        &&& 0 <= self.g <= 255
        &&& 0 <= self.b <= 255
    }

    /// The blend of this colour (at weight zero) and `o` (at weight one).
    pub open spec fn mix(self, o: Rgb, t: int) -> Rgb {
        Rgb {
            r: mix_channel(self.r, o.r, t),
            g: mix_channel(self.g, o.g, t),
            b: mix_channel(self.b, o.b, t),
        }
    }

    /// The colour with each channel dimmed by its own factor.
    pub open spec fn lit(self, fr: int, fg: int, fb: int) -> Rgb {
        Rgb { r: lit_channel(self.r, fr), g: lit_channel(self.g, fg), b: lit_channel(self.b, fb) }
    }
}

/// A colour of four 8-bit channels; every colour this library makes is
/// opaque.
#[derive(Clone, Copy, Debug, PartialEq, Eq, Structural)]
pub struct Color {
    pub r: u8,
    pub g: u8,
    pub b: u8,
    pub a: u8,
}

impl View for Color {
    type V = Rgb;

    open spec fn view(&self) -> Rgb {
        Rgb { r: self.r as int, g: self.g as int, b: self.b as int }
    }
}

/// A blended channel lies between the two channels it was blended from, and
/// the two ends of the weight's interval give the two channels.
pub proof fn lemma_mix_channel_between(a: int, b: int, t: int)
    ensures
        a <= b ==> a <= mix_channel(a, b, t) <= b,
        b <= a ==> b <= mix_channel(a, b, t) <= a,
        t <= 0 ==> mix_channel(a, b, t) == a,
        t >= ONE ==> mix_channel(a, b, t) == b,
{
    let w = spec_clamp01(t);
    let d = (b - a) * ONE;
    lemma_fx_mul_unit(d, w, magnitude(d));
    assert(d >= 0 ==> d * w >= 0) by (nonlinear_arith)
        requires
            w >= 0,
    ;
    assert(d <= 0 ==> d * w <= 0) by (nonlinear_arith)
        requires
            w >= 0,
    ;
    let v = spec_lerp(a * ONE, b * ONE, w);
    lemma_trunc_div_exact(a, ONE as int);
    lemma_trunc_div_exact(b, ONE as int);
    if a <= b {
        lemma_trunc_div_monotone(a * ONE, v, ONE as int);
        lemma_trunc_div_monotone(v, b * ONE, ONE as int);
    }
    if b <= a {
        lemma_trunc_div_monotone(b * ONE, v, ONE as int);
        lemma_trunc_div_monotone(v, a * ONE, ONE as int);
    }
    if t <= 0 {
        assert(d * w == 0) by (nonlinear_arith)
            requires
                w == 0,
        ;
    }
    if t >= ONE {
        lemma_trunc_div_exact(d, ONE as int);
    }
}

/// A dimmed channel lies between zero and the channel it was dimmed from.
pub proof fn lemma_lit_channel_between(c: int, f: int)
    requires
        c >= 0,
        0 <= f <= ONE,
    ensures
        0 <= lit_channel(c, f) <= c,
{
    lemma_fx_mul_unit(c, f, c);
    assert(c * f >= 0) by (nonlinear_arith)
        requires
            c >= 0,
            f >= 0,
    ;
}

/// Blending two colours that eight bits can hold gives such a colour.
pub broadcast proof fn lemma_mix_in_gamut(a: Rgb, b: Rgb, t: int)
    requires
        a.in_gamut(),
        b.in_gamut(),
    ensures
        #[trigger] a.mix(b, t).in_gamut(),
{
    lemma_mix_channel_between(a.r, b.r, t);
    lemma_mix_channel_between(a.g, b.g, t);
    lemma_mix_channel_between(a.b, b.b, t);
}

/// Dimming a colour that eight bits can hold gives such a colour.
pub proof fn lemma_lit_in_gamut(c: Rgb, fr: int, fg: int, fb: int)
    requires
        c.in_gamut(),
        0 <= fr <= ONE,
        0 <= fg <= ONE,
        0 <= fb <= ONE,
    ensures
        c.lit(fr, fg, fb).in_gamut(),
{
    lemma_lit_channel_between(c.r, fr);
    lemma_lit_channel_between(c.g, fg);
    lemma_lit_channel_between(c.b, fb);
}

/// An opaque colour from its three channels.
pub fn rgb(r: u8, g: u8, b: u8) -> (c: Color)
    ensures
        c == (Color { r, g, b, a: 255 }),
{
    Color { r, g, b, a: 255 }
}

/// One channel of a blend, for a weight between zero and one.
fn lerp_channel(a: u8, b: u8, w: i64) -> (c: u8)
    requires
        0 <= w <= ONE,
    ensures
        c == mix_channel(a as int, b as int, w as int),
{
    proof {
        lemma_mix_channel_between(a as int, b as int, w as int);
    }
    let v: i64 = lerp(a as i64 * 1_000_000, b as i64 * 1_000_000, w);
    (v / 1_000_000) as u8
}

/// Blends two colours: weight zero gives `a`, weight one gives `b`, and a
/// weight outside that interval counts as the nearer end.
pub fn lerp_color(a: Color, b: Color, t: i64) -> (c: Color)
    ensures
        c@ == a@.mix(b@, t as int),
        c.a == 255,
{
    let w: i64 = clamp01(t);
    Color {
        r: lerp_channel(a.r, b.r, w),
        g: lerp_channel(a.g, b.g, w),
        b: lerp_channel(a.b, b.b, w),
        a: 255,
    }
}

/// One channel dimmed by a factor between zero and one.
fn dim_channel(c: u8, f: i64) -> (r: u8)
    requires
        0 <= f <= ONE,
    ensures
        r == lit_channel(c as int, f as int),
{
    proof {
        lemma_lit_channel_between(c as int, f as int);
    }
    fx_mul(c as i64, f) as u8
}

impl Color {
    /// The colour with each channel dimmed by its own factor between zero
    /// and one.
    pub fn lit(self, fr: i64, fg: i64, fb: i64) -> (c: Color)
        requires
            0 <= fr <= ONE,
            0 <= fg <= ONE,
            0 <= fb <= ONE,
        ensures
            c@ == self@.lit(fr as int, fg as int, fb as int),
            c.a == 255,
    {
        Color {
            r: dim_channel(self.r, fr),
            g: dim_channel(self.g, fg),
            b: dim_channel(self.b, fb),
            a: 255,
        }
    }
}

} // verus!
