//! The surface appearances: for each kind of body, and for a ring, the colour
//! of a surface point as a function of its normal, the direction to the
//! light and the time.
//!
//! Every appearance is built from the same parts. The unit normal gives a
//! latitude (its `y`) and a longitude (the angle of its `x` and `z`, over
//! pi). The longitude advances with time, which makes the body spin. Sines
//! and cosines of the two give patterns; a pattern, cut off at a threshold,
//! gives a mask; masks blend base colours. A diffuse term, raised by an
//! ambient floor, dims the result.
use vstd::prelude::*;
use crate::body::BodyShader;
use crate::color::{lemma_lit_in_gamut, lemma_mix_in_gamut, lerp_color, rgb, Color, Rgb};
use crate::ring::{radial_distance, spec_radial_distance, REACH};
use crate::fixed::{
    clamp01, fx_mul, lemma_fx_mul_unit, lemma_mul_bound, lemma_trunc_div_bound, magnitude,
    spec_clamp01, spec_fx_mul, trunc_div, ONE,
};
use crate::geom::{Vec3, Vector};
use crate::tables::{Exponent, Tables};

verus! {

/// The longest time, in fixed-point seconds, for which a colour is computed:
/// a thousand million seconds.
pub const TIME_MAX: i64 = 1_000_000_000_000_000;

/// A sine or cosine, which lies between minus one and one, moved and shrunk
/// to lie between zero and one.
pub open spec fn spec_unit_wave(s: int) -> int {
    trunc_div(s, 2) + ONE / 2
}

/// How far the pattern `p` exceeds `threshold`, times `gain`, limited to the
/// interval from zero to one.
pub open spec fn spec_mask(p: int, threshold: int, gain: int) -> int {
    spec_clamp01((p - threshold) * gain)
}

/// The factor by which a lit surface is dimmed: the diffuse term times
/// `gain`, raised by `ambient`, limited to the interval from zero to one.
pub open spec fn spec_light_factor(diffuse: int, ambient: int, gain: int) -> int {
    spec_clamp01(ambient + spec_fx_mul(diffuse, gain))
}

/// The latitude of a surface point: the `y` of its unit normal.
pub open spec fn spec_latitude(normal: Vector) -> int {
    normal.normalized().y
}

/// The longitude of a surface point: the angle of the `x` and `z` of its
/// unit normal, over pi.
pub open spec fn spec_longitude(t: Tables, normal: Vector) -> int {
    t.spec_atan2_pi(normal.normalized().x, normal.normalized().z)
}

/// The diffuse term: the cosine of the angle between the normal and the
/// direction to the light, or zero where the light is behind the surface.
pub open spec fn spec_lambert(normal: Vector, light: Vector) -> int {
    spec_clamp01(trunc_div(normal.normalized().dot(light.normalized()), ONE as int))
}

/// The colour of a point of the sun before it is dimmed toward the limb. The
/// sun lights itself: the view axis takes the place of the light, so that the
/// disc goes from an orange edge over a pale yellow to a core that is nearly
/// white, with brighter flecks that move with time.
pub open spec fn spec_sun_surface(t: Tables, normal: Vector, time: int) -> Rgb {
    let lat = spec_latitude(normal);
    let lon = spec_longitude(t, normal);
    let facing = spec_sun_facing(normal);
    let granule_pattern = magnitude(
        spec_fx_mul(
            t.spec_sin(8 * lon + spec_fx_mul(time, 800_000)),
            t.spec_cos(14 * lat + spec_fx_mul(time, 600_000)),
        ),
    );
    let granule_t = spec_fx_mul(spec_mask(granule_pattern, 400_000, 1), 400_000);
    (Rgb { r: 255, g: 175, b: 70 }).mix(Rgb { r: 255, g: 225, b: 150 }, facing).mix(
        Rgb { r: 255, g: 255, b: 245 },
        t.spec_pow(Exponent::EightFifths, facing),
    ).mix(Rgb { r: 255, g: 240, b: 190 }, granule_t)
}

/// How far a point of the sun faces the viewer: one in the middle of the
/// disc, one half at the limb.
pub open spec fn spec_sun_facing(normal: Vector) -> int {
    spec_clamp01(spec_unit_wave(normal.normalized().z))
}

/// The factor by which a point of the sun is dimmed: one in the middle of
/// the disc, less toward the limb.
pub open spec fn spec_sun_brightness(normal: Vector) -> int {
    ONE - spec_fx_mul(ONE - spec_sun_facing(normal), 450_000)
}

/// The colour of a point of the sun.
pub open spec fn spec_shade_sun(t: Tables, normal: Vector, time: int) -> Rgb {
    let f = spec_sun_brightness(normal);
    spec_sun_surface(t, normal, time).lit(f, f, f)
}

/// The colour of a point of the earth before it is lit: an ocean that
/// changes with latitude, continents, polar ice and a thin moving haze.
pub open spec fn spec_earth_surface(t: Tables, normal: Vector, time: int) -> Rgb {
    let lat = spec_latitude(normal);
    let lon = spec_longitude(t, normal) + spec_fx_mul(time, 600_000);
    let ocean_t = t.spec_pow(Exponent::ThirteenTenths, spec_unit_wave(t.spec_sin(2 * lat)));
    let continents_pattern = spec_unit_wave(
        spec_fx_mul(t.spec_sin(3 * lon + 500_000), t.spec_cos(4 * lat - 200_000)),
    );
    let continents_mask = spec_mask(continents_pattern, 450_000, 6);
    let land = (Rgb { r: 30, g: 80, b: 30 }).mix(
        Rgb { r: 140, g: 110, b: 70 },
        spec_unit_wave(t.spec_sin(3 * lat)),
    );
    let a = magnitude(lat);
    let poles = spec_fx_mul(spec_fx_mul(a, a), a);
    let soft_pattern = magnitude(
        spec_fx_mul(
            t.spec_sin(4 * lon + spec_fx_mul(time, 400_000)),
            t.spec_cos(7 * lat + 500_000),
        ),
    );
    let soft_mask = spec_mask(soft_pattern, 600_000, 2);
    (Rgb { r: 10, g: 40, b: 90 }).mix(Rgb { r: 30, g: 110, b: 170 }, ocean_t).mix(
        land,
        continents_mask,
    ).mix(Rgb { r: 220, g: 230, b: 240 }, spec_fx_mul(poles, 800_000)).mix(
        Rgb { r: 210, g: 220, b: 230 },
        spec_fx_mul(soft_mask, 250_000),
    )
}

/// The colour of a point of the earth.
pub open spec fn spec_shade_earth(t: Tables, normal: Vector, light: Vector, time: int) -> Rgb {
    let f = spec_light_factor(spec_lambert(normal, light), 250_000, 850_000);
    spec_earth_surface(t, normal, time).lit(f, f, f)
}

/// The colour of a point of Mars before it is lit: rust in three tones by
/// latitude, dark regions and polar caps.
pub open spec fn spec_mars_surface(t: Tables, normal: Vector, time: int) -> Rgb {
    let lat = spec_latitude(normal);
    let lon = spec_longitude(t, normal) + spec_fx_mul(time, 350_000);
    let base_t = t.spec_pow(
        Exponent::ThreeHalves,
        spec_unit_wave(t.spec_sin(spec_fx_mul(lat, 1_500_000))),
    );
    let dark_pattern = magnitude(
        spec_fx_mul(t.spec_sin(spec_fx_mul(lon, 3_500_000)), t.spec_cos(5 * lat)),
    );
    let dark_mask = spec_mask(dark_pattern, 600_000, 3);
    let a = magnitude(lat);
    let poles = spec_fx_mul(spec_fx_mul(spec_fx_mul(a, a), a), a);
    (Rgb { r: 90, g: 40, b: 25 }).mix(Rgb { r: 160, g: 70, b: 35 }, base_t).mix(
        Rgb { r: 210, g: 120, b: 70 },
        spec_fx_mul(base_t, 600_000),
    ).mix(Rgb { r: 60, g: 30, b: 25 }, spec_fx_mul(dark_mask, 700_000)).mix(
        Rgb { r: 220, g: 220, b: 230 },
        spec_fx_mul(poles, 700_000),
    )
}

/// The colour of a point of Mars. Green and blue are dimmed more than red,
/// which tints the lit surface red.
pub open spec fn spec_shade_mars(t: Tables, normal: Vector, light: Vector, time: int) -> Rgb {
    let f = spec_light_factor(spec_lambert(normal, light), 180_000, 950_000);
    spec_mars_surface(t, normal, time).lit(
        f,
        spec_fx_mul(f, 900_000),
        spec_fx_mul(f, 850_000),
    )
}

/// The colour of a point of Mercury before it is lit: grey rock with
/// craters.
pub open spec fn spec_mercury_surface(t: Tables, normal: Vector, time: int) -> Rgb {
    let lat = spec_latitude(normal);
    let lon = spec_longitude(t, normal) + time;
    let base_t = t.spec_pow(
        Exponent::SixFifths,
        spec_unit_wave(spec_fx_mul(t.spec_sin(2 * lon), t.spec_cos(3 * lat))),
    );
    let crater_pattern = magnitude(spec_fx_mul(t.spec_sin(10 * lon), t.spec_cos(12 * lat)));
    let crater_mask = spec_mask(crater_pattern, 650_000, 3);
    (Rgb { r: 40, g: 40, b: 45 }).mix(Rgb { r: 130, g: 130, b: 135 }, base_t).mix(
        Rgb { r: 30, g: 30, b: 35 },
        spec_fx_mul(crater_mask, 800_000),
    )
}

/// The colour of a point of Mercury, under a hard light with little ambient
/// floor.
pub open spec fn spec_shade_mercury(t: Tables, normal: Vector, light: Vector, time: int) -> Rgb {
    let f = spec_light_factor(spec_lambert(normal, light), 100_000, ONE as int);
    spec_mercury_surface(t, normal, time).lit(f, f, f)
}

/// The colour of a point of Saturn before it is lit: bands by latitude, a
/// moving swirl and a darker band at the equator.
pub open spec fn spec_saturn_surface(t: Tables, normal: Vector, time: int) -> Rgb {
    let lat = spec_latitude(normal);
    let lon = spec_longitude(t, normal) + spec_fx_mul(time, 300_000);
    let band = spec_unit_wave(t.spec_sin(6 * lat));
    let band2 = Rgb { r: 195, g: 180, b: 155 };
    let base_ab = band2.mix(Rgb { r: 215, g: 200, b: 170 }, band);
    let base_bc = band2.mix(Rgb { r: 175, g: 160, b: 140 }, spec_fx_mul(band, band));
    let swirl = spec_unit_wave(t.spec_sin(10 * lon + 4 * lat));
    let equator = magnitude(t.spec_sin(3 * lat));
    let eq_mask = spec_mask(equator, 500_000, 2);
    base_bc.mix(base_ab, 600_000).mix(
        Rgb { r: 225, g: 210, b: 180 },
        spec_fx_mul(swirl, 300_000),
    ).mix(Rgb { r: 160, g: 145, b: 125 }, spec_fx_mul(eq_mask, 300_000))
}

/// The colour of a point of Saturn.
pub open spec fn spec_shade_saturn(t: Tables, normal: Vector, light: Vector, time: int) -> Rgb {
    let f = spec_light_factor(spec_lambert(normal, light), 250_000, 900_000);
    spec_saturn_surface(t, normal, time).lit(f, f, f)
}

/// The colour of a point of a body with the surface appearance `kind`.
pub open spec fn spec_shade_body(
    t: Tables,
    kind: BodyShader,
    normal: Vector,
    light: Vector,
    time: int,
) -> Rgb {
    match kind {
        BodyShader::Sun => spec_shade_sun(t, normal, time),
        BodyShader::Earth => spec_shade_earth(t, normal, light, time),
        BodyShader::Mars => spec_shade_mars(t, normal, light, time),
        BodyShader::Mercury => spec_shade_mercury(t, normal, light, time),
        BodyShader::Saturn => spec_shade_saturn(t, normal, light, time),
    }
}

/// The colour of a point of a ring at the distance `r` from the ring's axis,
/// before it is lit: a gradient from the inner to the outer edge, with fine
/// bands.
pub open spec fn spec_ring_surface(t: Tables, r: int, inner_radius: int, outer_radius: int) -> Rgb {
    let r_norm = spec_clamp01(trunc_div((r - inner_radius) * ONE, outer_radius - inner_radius));
    let band_pattern = magnitude(t.spec_sin(25 * r));
    let band_mask = spec_mask(band_pattern, 400_000, 3);
    (Rgb { r: 210, g: 200, b: 180 }).mix(Rgb { r: 160, g: 150, b: 140 }, r_norm).mix(
        Rgb { r: 230, g: 220, b: 200 },
        spec_fx_mul(band_mask, 700_000),
    )
}

/// The colour of the point `pos` of a ring around `center` whose plane has
/// the normal `plane_normal`.
pub open spec fn spec_shade_rings(
    t: Tables,
    pos: Vector,
    plane_normal: Vector,
    light: Vector,
    center: Vector,
    inner_radius: int,
    outer_radius: int,
) -> Rgb {
    let r = spec_radial_distance(pos, plane_normal, center);
    let f = spec_light_factor(spec_lambert(plane_normal, light), 250_000, 900_000);
    spec_ring_surface(t, r, inner_radius, outer_radius).lit(f, f, f)
}

/// A part of a factor between zero and one lies between zero and one.
proof fn lemma_part_unit(f: int, k: int)
    requires
        0 <= f <= ONE,
        0 <= k <= ONE,
    ensures
        0 <= spec_fx_mul(f, k) <= ONE,
{
    lemma_fx_mul_unit(f, k, ONE as int);
    assert(f * k >= 0) by (nonlinear_arith)
        requires
            f >= 0,
            k >= 0,
    ;
}

/// Whatever the normal, the light, the time and the sampled curves are,
/// every channel of the colour of a body is a value that eight bits can hold.
pub proof fn lemma_body_colour_in_gamut(
    t: Tables,
    kind: BodyShader,
    normal: Vector,
    light: Vector,
    time: int,
)
    ensures
        spec_shade_body(t, kind, normal, light, time).in_gamut(),
{
    broadcast use lemma_mix_in_gamut;

    match kind {
        BodyShader::Sun => {
            lemma_part_unit(ONE - spec_sun_facing(normal), 450_000);
            let f = spec_sun_brightness(normal);
            lemma_lit_in_gamut(spec_sun_surface(t, normal, time), f, f, f);
        },
        BodyShader::Earth => {
            let f = spec_light_factor(spec_lambert(normal, light), 250_000, 850_000);
            lemma_lit_in_gamut(spec_earth_surface(t, normal, time), f, f, f);
        },
        BodyShader::Mars => {
            let f = spec_light_factor(spec_lambert(normal, light), 180_000, 950_000);
            lemma_part_unit(f, 900_000);
            lemma_part_unit(f, 850_000);
            lemma_lit_in_gamut(
                spec_mars_surface(t, normal, time),
                f,
                spec_fx_mul(f, 900_000),
                spec_fx_mul(f, 850_000),
            );
        },
        BodyShader::Mercury => {
            let f = spec_light_factor(spec_lambert(normal, light), 100_000, ONE as int);
            lemma_lit_in_gamut(spec_mercury_surface(t, normal, time), f, f, f);
        },
        BodyShader::Saturn => {
            let f = spec_light_factor(spec_lambert(normal, light), 250_000, 900_000);
            lemma_lit_in_gamut(spec_saturn_surface(t, normal, time), f, f, f);
        },
    }
}

/// Whatever the point, the normals, the radii and the sampled curves are,
/// every channel of the colour of a ring is a value that eight bits can hold.
pub proof fn lemma_ring_colour_in_gamut(
    t: Tables,
    pos: Vector,
    plane_normal: Vector,
    light: Vector,
    center: Vector,
    inner_radius: int,
    outer_radius: int,
)
    ensures
        spec_shade_rings(t, pos, plane_normal, light, center, inner_radius, outer_radius).in_gamut(),
{
    broadcast use lemma_mix_in_gamut;

    let r = spec_radial_distance(pos, plane_normal, center);
    let f = spec_light_factor(spec_lambert(plane_normal, light), 250_000, 900_000);
    lemma_lit_in_gamut(spec_ring_surface(t, r, inner_radius, outer_radius), f, f, f);
}

/// The product of two numbers between minus one and one.
fn unit_mul(a: i64, b: i64) -> (r: i64)
    requires
        -ONE <= a <= ONE,
        -ONE <= b <= ONE,
    ensures
        r == spec_fx_mul(a as int, b as int),
        -ONE <= r <= ONE,
        a >= 0 && b >= 0 ==> r >= 0,
{
    proof {
        lemma_fx_mul_unit(a as int, b as int, ONE as int);
        assert(a >= 0 && b >= 0 ==> a * b >= 0) by (nonlinear_arith);
    }
    fx_mul(a, b)
}

/// The magnitude of a number between minus one and one.
fn unit_abs(x: i64) -> (r: i64)
    requires
        -ONE <= x <= ONE,
    ensures
        r == magnitude(x as int),
        0 <= r <= ONE,
{
    if x >= 0 {
        x
    } else {
        -x
    }
}

/// A sine or cosine moved and shrunk to lie between zero and one.
fn unit_wave(s: i64) -> (r: i64)
    requires
        -ONE <= s <= ONE,
    ensures
        r == spec_unit_wave(s as int),
        0 <= r <= ONE,
{
    s / 2 + 500_000
}

/// How far a pattern exceeds a threshold, times a gain, limited to the
/// interval from zero to one.
fn mask(p: i64, threshold: i64, gain: i64) -> (r: i64)
    requires
        -ONE <= p <= ONE,
        0 <= threshold <= ONE,
        0 < gain <= 16,
    ensures
        r == spec_mask(p as int, threshold as int, gain as int),
        0 <= r <= ONE,
{
    proof {
        lemma_mul_bound((p - threshold) as int, gain as int, 2 * ONE, 16);
    }
    clamp01((p - threshold) * gain)
}

/// The longitude advanced by the time times the speed of the spin.
fn spin(lon: i64, time: i64, speed: i64) -> (r: i64)
    requires
        -ONE <= lon <= ONE,
        0 <= time <= TIME_MAX,
        0 <= speed <= ONE,
    ensures
        r == lon + spec_fx_mul(time as int, speed as int),
        -ONE <= r <= TIME_MAX + ONE,
{
    proof {
        lemma_fx_mul_unit(time as int, speed as int, TIME_MAX as int);
        assert(time * speed >= 0) by (nonlinear_arith)
            requires
                time >= 0,
                speed >= 0,
        ;
    }
    lon + fx_mul(time, speed)
}

/// The factor by which a lit surface is dimmed.
fn light_factor(diffuse: i64, ambient: i64, gain: i64) -> (r: i64)
    requires
        0 <= diffuse <= ONE,
        0 <= ambient <= ONE,
        0 <= gain <= ONE,
    ensures
        r == spec_light_factor(diffuse as int, ambient as int, gain as int),
        0 <= r <= ONE,
{
    clamp01(ambient + unit_mul(diffuse, gain))
}

/// The latitude and the longitude of a surface point with the given normal.
pub fn spherical_coords(tables: &Tables, normal: Vec3) -> (r: (i64, i64))
    ensures
        r.0 == spec_latitude(normal@),
        r.1 == spec_longitude(*tables, normal@),
        -ONE <= r.0 <= ONE,
        -ONE <= r.1 <= ONE,
{
    let n: Vec3 = normal.normalize();
    (n.y, tables.atan2_pi(n.x, n.z))
}

/// The diffuse term for a normal and a direction to the light, neither of
/// which needs to have unit length.
pub fn lambert(normal: Vec3, light_dir: Vec3) -> (r: i64)
    ensures
        r == spec_lambert(normal@, light_dir@),
        0 <= r <= ONE,
{
    let n: Vec3 = normal.normalize();
    let l: Vec3 = light_dir.normalize();
    let d: i128 = n.dot(l) / 1_000_000;
    if d < 0 {
        0
    } else if d > 1_000_000 {
        ONE
    } else {
        d as i64
    }
}

/// A number of moderate size times a fixed-point factor of at most sixteen.
fn stretch(x: i64, k: i64) -> (r: i64)
    requires
        -2 * TIME_MAX <= x <= 2 * TIME_MAX,
        0 <= k <= 16 * ONE,
    ensures
        r == spec_fx_mul(x as int, k as int),
        -32 * TIME_MAX <= r <= 32 * TIME_MAX,
{
    proof {
        lemma_mul_bound(x as int, k as int, 2 * TIME_MAX, 16 * ONE);
        assert((2 * TIME_MAX) * (16 * ONE) == (32 * TIME_MAX) * ONE) by (nonlinear_arith);
        lemma_trunc_div_bound(x * k, ONE as int, 32 * TIME_MAX);
    }
    fx_mul(x, k)
}

/// The colour of a point of the sun.
pub fn shade_sun(tables: &Tables, _pos: Vec3, normal: Vec3, _light_dir: Vec3, time: i64) -> (c:
    Color)
    requires
        0 <= time <= TIME_MAX,
    ensures
        c@ == spec_shade_sun(*tables, normal@, time as int),
        c.a == 255,
{
    let n: Vec3 = normal.normalize();
    let (lat, lon): (i64, i64) = spherical_coords(tables, normal);
    let facing: i64 = clamp01(unit_wave(n.z));
    let limb: i64 = ONE - facing;
    let base_mid: Color = lerp_color(rgb(255, 175, 70), rgb(255, 225, 150), facing);
    let disc: Color = lerp_color(
        base_mid,
        rgb(255, 255, 245),
        tables.pow(Exponent::EightFifths, facing),
    );
    let granule_pattern: i64 = unit_abs(
        unit_mul(
            tables.sin(8 * lon + spin(0, time, 800_000)),
            tables.cos(14 * lat + spin(0, time, 600_000)),
        ),
    );
    let granule_t: i64 = unit_mul(mask(granule_pattern, 400_000, 1), 400_000);
    let flecked: Color = lerp_color(disc, rgb(255, 240, 190), granule_t);
    let brightness: i64 = ONE - unit_mul(limb, 450_000);
    flecked.lit(brightness, brightness, brightness)
}

/// The colour of a point of the earth.
pub fn shade_earth(tables: &Tables, _pos: Vec3, normal: Vec3, light_dir: Vec3, time: i64) -> (c:
    Color)
    requires
        0 <= time <= TIME_MAX,
    ensures
        c@ == spec_shade_earth(*tables, normal@, light_dir@, time as int),
        c.a == 255,
{
    let (lat, lon0): (i64, i64) = spherical_coords(tables, normal);
    let lon: i64 = spin(lon0, time, 600_000);
    let ocean_t: i64 = tables.pow(Exponent::ThirteenTenths, unit_wave(tables.sin(2 * lat)));
    let ocean: Color = lerp_color(rgb(10, 40, 90), rgb(30, 110, 170), ocean_t);
    let continents_pattern: i64 = unit_wave(
        unit_mul(tables.sin(3 * lon + 500_000), tables.cos(4 * lat - 200_000)),
    );
    let continents_mask: i64 = mask(continents_pattern, 450_000, 6);
    let land: Color = lerp_color(
        rgb(30, 80, 30),
        rgb(140, 110, 70),
        unit_wave(tables.sin(3 * lat)),
    );
    let a: i64 = unit_abs(lat);
    let poles: i64 = unit_mul(unit_mul(a, a), a);
    let soft_pattern: i64 = unit_abs(
        unit_mul(tables.sin(4 * lon + spin(0, time, 400_000)), tables.cos(7 * lat + 500_000)),
    );
    let soft_mask: i64 = mask(soft_pattern, 600_000, 2);
    let with_land: Color = lerp_color(ocean, land, continents_mask);
    let with_ice: Color = lerp_color(with_land, rgb(220, 230, 240), unit_mul(poles, 800_000));
    let surface: Color = lerp_color(with_ice, rgb(210, 220, 230), unit_mul(soft_mask, 250_000));
    let f: i64 = light_factor(lambert(normal, light_dir), 250_000, 850_000);
    surface.lit(f, f, f)
}

/// The colour of a point of Mars.
pub fn shade_mars(tables: &Tables, _pos: Vec3, normal: Vec3, light_dir: Vec3, time: i64) -> (c:
    Color)
    requires
        0 <= time <= TIME_MAX,
    ensures
        c@ == spec_shade_mars(*tables, normal@, light_dir@, time as int),
        c.a == 255,
{
    let (lat, lon0): (i64, i64) = spherical_coords(tables, normal);
    let lon: i64 = spin(lon0, time, 350_000);
    let base_t: i64 = tables.pow(
        Exponent::ThreeHalves,
        unit_wave(tables.sin(stretch(lat, 1_500_000))),
    );
    let base_a: Color = lerp_color(rgb(90, 40, 25), rgb(160, 70, 35), base_t);
    let base: Color = lerp_color(base_a, rgb(210, 120, 70), unit_mul(base_t, 600_000));
    let dark_pattern: i64 = unit_abs(
        unit_mul(tables.sin(stretch(lon, 3_500_000)), tables.cos(5 * lat)),
    );
    let dark_mask: i64 = mask(dark_pattern, 600_000, 3);
    let with_dark: Color = lerp_color(base, rgb(60, 30, 25), unit_mul(dark_mask, 700_000));
    let a: i64 = unit_abs(lat);
    let poles: i64 = unit_mul(unit_mul(unit_mul(a, a), a), a);
    let surface: Color = lerp_color(with_dark, rgb(220, 220, 230), unit_mul(poles, 700_000));
    let f: i64 = light_factor(lambert(normal, light_dir), 180_000, 950_000);
    surface.lit(f, unit_mul(f, 900_000), unit_mul(f, 850_000))
}

/// The colour of a point of Mercury.
pub fn shade_mercury(tables: &Tables, _pos: Vec3, normal: Vec3, light_dir: Vec3, time: i64) -> (c:
    Color)
    requires
        0 <= time <= TIME_MAX,
    ensures
        c@ == spec_shade_mercury(*tables, normal@, light_dir@, time as int),
        c.a == 255,
{
    let (lat, lon0): (i64, i64) = spherical_coords(tables, normal);
    let lon: i64 = lon0 + time;
    let base_t: i64 = tables.pow(
        Exponent::SixFifths,
        unit_wave(unit_mul(tables.sin(2 * lon), tables.cos(3 * lat))),
    );
    let base: Color = lerp_color(rgb(40, 40, 45), rgb(130, 130, 135), base_t);
    let crater_pattern: i64 = unit_abs(unit_mul(tables.sin(10 * lon), tables.cos(12 * lat)));
    let crater_mask: i64 = mask(crater_pattern, 650_000, 3);
    let surface: Color = lerp_color(base, rgb(30, 30, 35), unit_mul(crater_mask, 800_000));
    let f: i64 = light_factor(lambert(normal, light_dir), 100_000, ONE);
    surface.lit(f, f, f)
}

/// The colour of a point of Saturn.
pub fn shade_saturn(tables: &Tables, _pos: Vec3, normal: Vec3, light_dir: Vec3, time: i64) -> (c:
    Color)
    requires
        0 <= time <= TIME_MAX,
    ensures
        c@ == spec_shade_saturn(*tables, normal@, light_dir@, time as int),
        c.a == 255,
{
    let (lat, lon0): (i64, i64) = spherical_coords(tables, normal);
    let lon: i64 = spin(lon0, time, 300_000);
    let band: i64 = unit_wave(tables.sin(6 * lat));
    let base_ab: Color = lerp_color(rgb(195, 180, 155), rgb(215, 200, 170), band);
    let base_bc: Color = lerp_color(rgb(195, 180, 155), rgb(175, 160, 140), unit_mul(band, band));
    let base: Color = lerp_color(base_bc, base_ab, 600_000);
    let swirl: i64 = unit_wave(tables.sin(10 * lon + 4 * lat));
    let with_swirl: Color = lerp_color(base, rgb(225, 210, 180), unit_mul(swirl, 300_000));
    let equator: i64 = unit_abs(tables.sin(3 * lat));
    let eq_mask: i64 = mask(equator, 500_000, 2);
    let surface: Color = lerp_color(with_swirl, rgb(160, 145, 125), unit_mul(eq_mask, 300_000));
    let f: i64 = light_factor(lambert(normal, light_dir), 250_000, 900_000);
    surface.lit(f, f, f)
}

/// The colour of a point of a body with the surface appearance `kind`, for
/// the normal at the point, the direction from the point to the light and
/// the time. The sun lights itself and makes no use of the light.
pub fn shade_body(
    tables: &Tables,
    kind: BodyShader,
    pos: Vec3,
    normal: Vec3,
    light_dir: Vec3,
    time: i64,
) -> (c: Color)
    requires
        0 <= time <= TIME_MAX,
    ensures
        c@ == spec_shade_body(*tables, kind, normal@, light_dir@, time as int),
        c@.in_gamut(),
        c.a == 255,
{
    match kind {
        BodyShader::Sun => shade_sun(tables, pos, normal, light_dir, time),
        BodyShader::Earth => shade_earth(tables, pos, normal, light_dir, time),
        BodyShader::Mars => shade_mars(tables, pos, normal, light_dir, time),
        BodyShader::Mercury => shade_mercury(tables, pos, normal, light_dir, time),
        BodyShader::Saturn => shade_saturn(tables, pos, normal, light_dir, time),
    }
}

/// The colour of the point `pos` of a ring around `saturn_center` whose
/// plane has the normal `plane_normal`, between the two radii.
pub fn shade_saturn_rings(
    tables: &Tables,
    pos: Vec3,
    plane_normal: Vec3,
    light_dir: Vec3,
    _time: i64,
    saturn_center: Vec3,
    inner_radius: i64,
    outer_radius: i64,
) -> (c: Color)
    requires
        pos@.within(REACH as int),
        saturn_center@.within(REACH as int),
        inner_radius < outer_radius,
    ensures
        c@ == spec_shade_rings(
            *tables,
            pos@,
            plane_normal@,
            light_dir@,
            saturn_center@,
            inner_radius as int,
            outer_radius as int,
        ),
        c@.in_gamut(),
        c.a == 255,
{
    let r: i64 = radial_distance(pos, plane_normal, saturn_center);
    let span: i128 = outer_radius as i128 - inner_radius as i128;
    let offset: i128 = (r as i128 - inner_radius as i128) * 1_000_000 / span;
    let r_norm: i64 = if offset < 0 {
        0
    } else if offset > 1_000_000 {
        ONE
    } else {
        offset as i64
    };
    let base: Color = lerp_color(rgb(210, 200, 180), rgb(160, 150, 140), r_norm);
    let band_pattern: i64 = unit_abs(tables.sin(25 * r));
    let band_mask: i64 = mask(band_pattern, 400_000, 3);
    let surface: Color = lerp_color(base, rgb(230, 220, 200), unit_mul(band_mask, 700_000));
    let f: i64 = light_factor(lambert(plane_normal, light_dir), 250_000, 900_000);
    surface.lit(f, f, f)
}

} // verus!
