use solar_raytracer::body::BodyShader;
use solar_raytracer::color::{rgb, Color};
use solar_raytracer::fixed::ONE;
use solar_raytracer::geom::{vec3, Vec3};
use solar_raytracer::shaders::{
    lambert, shade_body, shade_earth, shade_mars, shade_mercury, shade_saturn, shade_saturn_rings,
    shade_sun, spherical_coords, TIME_MAX,
};
use solar_raytracer::tables::Tables;

fn triangle_wave() -> Vec<i64> {
    let mut sine = Vec::new();
    for k in 0..4096i64 {
        let v = if k <= 1024 {
            k * ONE / 1024
        } else if k <= 2048 {
            (2048 - k) * ONE / 1024
        } else if k <= 3072 {
            -((k - 2048) * ONE / 1024)
        } else {
            -((4096 - k) * ONE / 1024)
        };
        sine.push(v);
    }
    sine
}

fn toy_tables() -> Tables {
    let quarter: Vec<i64> = (0..1025i64).map(|k| k * 250_000 / 1024).collect();
    let ramp: Vec<i64> = (0..1025i64).map(|k| k * ONE / 1024).collect();
    let squares: Vec<i64> = (0..1025i64).map(|k| k * k * ONE / (1024 * 1024)).collect();
    Tables::new(triangle_wave(), quarter, ramp.clone(), ramp, squares.clone(), squares).unwrap()
}

fn real_tables() -> Tables {
    let pi = std::f64::consts::PI;
    let sine: Vec<i64> =
        (0..4096).map(|k| ((2.0 * pi * k as f64 / 4096.0).sin() * 1e6).round() as i64).collect();
    let arctan: Vec<i64> =
        (0..1025).map(|k| ((k as f64 / 1024.0).atan() / pi * 1e6).round() as i64).collect();
    let power = |e: f64| -> Vec<i64> {
        (0..1025).map(|k| ((k as f64 / 1024.0).powf(e) * 1e6).round() as i64).collect()
    };
    Tables::new(sine, arctan, power(1.2), power(1.3), power(1.5), power(1.6)).unwrap()
}

fn fixed(v: [f64; 3]) -> Vec3 {
    vec3((v[0] * 1e6).round() as i64, (v[1] * 1e6).round() as i64, (v[2] * 1e6).round() as i64)
}

fn unit(v: [f64; 3]) -> [f64; 3] {
    let n = (v[0] * v[0] + v[1] * v[1] + v[2] * v[2]).sqrt();
    [v[0] / n, v[1] / n, v[2] / n]
}

fn limit(x: f64) -> f64 {
    x.max(0.0).min(1.0)
}

fn blend(a: [u8; 3], b: [u8; 3], t: f64) -> [u8; 3] {
    let t = limit(t);
    let ch = |x: u8, y: u8| (x as f64 + (y as f64 - x as f64) * t) as u8;
    [ch(a[0], b[0]), ch(a[1], b[1]), ch(a[2], b[2])]
}

fn diffuse(n: [f64; 3], l: [f64; 3]) -> f64 {
    let n = unit(n);
    let l = unit(l);
    limit(n[0] * l[0] + n[1] * l[1] + n[2] * l[2])
}

fn latitude_longitude(n: [f64; 3]) -> (f64, f64) {
    let n = unit(n);
    (n[1], (n[0].atan2(n[2]) / std::f64::consts::PI).max(-1.0).min(1.0))
}

fn float_mercury(n: [f64; 3], l: [f64; 3], time: f64) -> [u8; 3] {
    let (lat, lon) = latitude_longitude(n);
    let lon = lon + time;
    let base_t = ((lon * 2.0).sin() * (lat * 3.0).cos() * 0.5 + 0.5).powf(1.2);
    let c = blend([40, 40, 45], [130, 130, 135], base_t);
    let crater = ((lon * 10.0).sin() * (lat * 12.0).cos()).abs();
    let c = blend(c, [30, 30, 35], limit((crater - 0.65) * 3.0) * 0.8);
    let f = limit(0.1 + diffuse(n, l));
    [(c[0] as f64 * f) as u8, (c[1] as f64 * f) as u8, (c[2] as f64 * f) as u8]
}

fn float_saturn(n: [f64; 3], l: [f64; 3], time: f64) -> [u8; 3] {
    let (lat, lon) = latitude_longitude(n);
    let lon = lon + time * 0.3;
    let t = (lat * 6.0).sin() * 0.5 + 0.5;
    let ab = blend([195, 180, 155], [215, 200, 170], t);
    let bc = blend([195, 180, 155], [175, 160, 140], t * t);
    let c = blend(bc, ab, 0.6);
    let swirl = (lon * 10.0 + lat * 4.0).sin() * 0.5 + 0.5;
    let c = blend(c, [225, 210, 180], swirl * 0.3);
    let equator = (lat * 3.0).sin().abs();
    let c = blend(c, [160, 145, 125], limit((equator - 0.5) * 2.0) * 0.3);
    let f = limit(0.25 + diffuse(n, l) * 0.9);
    [(c[0] as f64 * f) as u8, (c[1] as f64 * f) as u8, (c[2] as f64 * f) as u8]
}

fn float_earth(n: [f64; 3], l: [f64; 3], time: f64) -> [u8; 3] {
    let (lat, lon) = latitude_longitude(n);
    let lon = lon + time * 0.6;
    let ocean_t = ((lat * 2.0).sin() * 0.5 + 0.5).powf(1.3);
    let c = blend([10, 40, 90], [30, 110, 170], ocean_t);
    let continents = (lon * 3.0 + 0.5).sin() * (lat * 4.0 - 0.2).cos() * 0.5 + 0.5;
    let land = blend([30, 80, 30], [140, 110, 70], (lat * 3.0).sin() * 0.5 + 0.5);
    let c = blend(c, land, limit((continents - 0.45) * 6.0));
    let c = blend(c, [220, 230, 240], lat.abs().powi(3) * 0.8);
    let soft = ((lon * 4.0 + time * 0.4).sin() * (lat * 7.0 + 0.5).cos()).abs();
    let c = blend(c, [210, 220, 230], limit((soft - 0.6) * 2.0) * 0.25);
    let f = limit(0.25 + diffuse(n, l) * 0.85);
    [(c[0] as f64 * f) as u8, (c[1] as f64 * f) as u8, (c[2] as f64 * f) as u8]
}

fn close(c: Color, f: [u8; 3]) -> bool {
    let d = |x: u8, y: u8| (x as i32 - y as i32).abs() <= 2;
    d(c.r, f[0]) && d(c.g, f[1]) && d(c.b, f[2]) && c.a == 255
}

fn samples() -> Vec<([f64; 3], [f64; 3], f64)> {
    vec![
        ([0.3, 0.5, -0.8], [-1.0, 2.0, -1.0], 0.0),
        ([0.1, -0.9, 0.4], [0.5, -0.5, 0.7], 12.5),
        ([-0.7, 0.2, 0.68], [-0.2, 0.1, 1.0], 3.25),
        ([0.0, 1.0, 0.0], [0.0, 1.0, 0.2], 40.0),
        ([0.6, 0.0, 0.8], [1.0, 0.0, 0.0], 7.75),
        ([-0.4, -0.4, -0.82], [-1.0, -1.0, -1.0], 21.0),
    ]
}

#[test]
fn spherical_coords_of_a_normal() {
    let t = toy_tables();
    assert_eq!(spherical_coords(&t, vec3(3 * ONE, 4 * ONE, 0)), (800_000, 500_000));
    assert_eq!(spherical_coords(&t, vec3(ONE, 0, ONE)), (0, 250_000));
    assert_eq!(spherical_coords(&t, vec3(0, 0, -ONE)), (0, ONE));
}

#[test]
fn spherical_coords_of_the_zero_vector() {
    assert_eq!(spherical_coords(&toy_tables(), vec3(0, 0, 0)), (0, 0));
}

#[test]
fn lambert_is_the_cosine_of_the_angle() {
    assert_eq!(lambert(vec3(0, 0, 5), vec3(0, 0, 9)), ONE);
    assert_eq!(lambert(vec3(ONE, 0, 0), vec3(ONE, ONE, 0)), 707_107);
}

#[test]
fn lambert_is_zero_where_the_light_is_behind() {
    assert_eq!(lambert(vec3(ONE, 0, 0), vec3(-ONE, 0, 0)), 0);
}

#[test]
fn lambert_of_the_zero_vector_is_zero() {
    assert_eq!(lambert(vec3(0, 0, 0), vec3(ONE, 0, 0)), 0);
    assert_eq!(lambert(vec3(ONE, 0, 0), vec3(0, 0, 0)), 0);
}

#[test]
fn each_kind_has_its_own_colour() {
    let t = toy_tables();
    let p = vec3(0, 0, 0);
    let n = vec3(300_000, 500_000, -800_000);
    let l = vec3(-ONE, 2 * ONE, -ONE);
    assert_eq!(shade_body(&t, BodyShader::Sun, p, n, l, 0), rgb(151, 106, 46));
    assert_eq!(shade_body(&t, BodyShader::Earth, p, n, l, 0), rgb(60, 87, 107));
    assert_eq!(shade_body(&t, BodyShader::Mars, p, n, l, 0), rgb(120, 57, 33));
    assert_eq!(shade_body(&t, BodyShader::Mercury, p, n, l, 0), rgb(61, 61, 65));
    assert_eq!(shade_body(&t, BodyShader::Saturn, p, n, l, 0), rgb(150, 138, 119));
}

#[test]
fn the_kind_picks_the_appearance() {
    let t = toy_tables();
    let p = vec3(0, 0, 0);
    let n = vec3(300_000, 500_000, -800_000);
    let l = vec3(-ONE, 2 * ONE, -ONE);
    let time = 1_234_567;
    assert_eq!(shade_body(&t, BodyShader::Sun, p, n, l, time), shade_sun(&t, p, n, l, time));
    assert_eq!(shade_body(&t, BodyShader::Earth, p, n, l, time), shade_earth(&t, p, n, l, time));
    assert_eq!(shade_body(&t, BodyShader::Mars, p, n, l, time), shade_mars(&t, p, n, l, time));
    assert_eq!(shade_body(&t, BodyShader::Mercury, p, n, l, time), shade_mercury(&t, p, n, l, time));
    assert_eq!(shade_body(&t, BodyShader::Saturn, p, n, l, time), shade_saturn(&t, p, n, l, time));
}

#[test]
fn colours_change_with_time() {
    let t = toy_tables();
    let p = vec3(0, 0, 0);
    let n = vec3(300_000, 500_000, -800_000);
    let l = vec3(-ONE, 2 * ONE, -ONE);
    assert_eq!(shade_earth(&t, p, n, l, 1_234_567), rgb(78, 89, 93));
    assert_eq!(shade_earth(&t, p, n, l, 987_654_321), rgb(51, 86, 113));
    assert_eq!(shade_mercury(&t, p, n, l, 1_234_567), rgb(59, 59, 63));
    assert_eq!(shade_saturn(&t, p, n, l, 987_654_321), rgb(154, 141, 121));
}

#[test]
fn the_sun_ignores_the_light() {
    let t = toy_tables();
    let p = vec3(0, 0, 0);
    let n = vec3(ONE, 0, 0);
    assert_eq!(shade_sun(&t, p, n, vec3(0, ONE, 0), 0), rgb(197, 165, 112));
    assert_eq!(shade_sun(&t, p, n, vec3(0, -ONE, 0), 0), rgb(197, 165, 112));
}

#[test]
fn the_sun_is_darker_at_the_limb() {
    assert_eq!(shade_sun(&real_tables(), vec3(0, 0, 0), vec3(0, 0, -ONE), vec3(0, 0, 0), 0), rgb(140, 104, 53));
}

#[test]
fn mars_dims_green_and_blue_more_than_red() {
    let t = toy_tables();
    assert_eq!(shade_mars(&t, vec3(0, 0, 0), vec3(0, ONE, 0), vec3(0, ONE, 0), 0), rgb(209, 164, 150));
}

#[test]
fn the_dark_side_keeps_the_ambient_light() {
    let t = toy_tables();
    assert_eq!(shade_mars(&t, vec3(0, 0, 0), vec3(0, 0, ONE), vec3(0, 0, -ONE), 0), rgb(21, 9, 5));
}

#[test]
fn ring_colour_at_a_point() {
    let t = toy_tables();
    let c = shade_saturn_rings(
        &t,
        vec3(2_000_000, 100_000, 4_000_000),
        vec3(0, ONE, 300_000),
        vec3(ONE, ONE, -ONE),
        0,
        vec3(0, 0, 4 * ONE),
        ONE,
        3 * ONE,
    );
    assert_eq!(c, rgb(110, 104, 95));
}

#[test]
fn ring_colour_does_not_change_with_time() {
    let t = real_tables();
    let shade = |time: i64| {
        shade_saturn_rings(
            &t,
            vec3(1_500_000, 0, 0),
            vec3(0, ONE, 0),
            vec3(0, ONE, 0),
            time,
            vec3(0, 0, 0),
            ONE,
            2 * ONE,
        )
    };
    assert_eq!(shade(0), rgb(185, 175, 160));
    assert_eq!(shade(5 * ONE), rgb(185, 175, 160));
}

#[test]
fn colours_are_computed_up_to_the_longest_time() {
    let t = real_tables();
    let p = vec3(0, 0, 0);
    let n = vec3(300_000, 500_000, -800_000);
    let l = vec3(-ONE, 2 * ONE, -ONE);
    for kind in [BodyShader::Sun, BodyShader::Earth, BodyShader::Mars, BodyShader::Mercury, BodyShader::Saturn] {
        assert_eq!(shade_body(&t, kind, p, n, l, TIME_MAX).a, 255);
    }
}

#[test]
fn colours_are_computed_for_extreme_vectors() {
    let t = real_tables();
    let n = vec3(i64::MIN, i64::MAX, i64::MIN);
    let l = vec3(i64::MAX, i64::MIN, 0);
    for kind in [BodyShader::Sun, BodyShader::Earth, BodyShader::Mars, BodyShader::Mercury, BodyShader::Saturn] {
        assert_eq!(shade_body(&t, kind, n, n, l, 0).a, 255);
        assert_eq!(shade_body(&t, kind, n, vec3(0, 0, 0), vec3(0, 0, 0), 0).a, 255);
    }
}

#[test]
fn mercury_agrees_with_floating_point() {
    let t = real_tables();
    for (n, l, time) in samples() {
        let c = shade_mercury(&t, vec3(0, 0, 0), fixed(n), fixed(l), (time * 1e6).round() as i64);
        assert!(close(c, float_mercury(n, l, time)));
    }
}

#[test]
fn saturn_agrees_with_floating_point() {
    let t = real_tables();
    for (n, l, time) in samples() {
        let c = shade_saturn(&t, vec3(0, 0, 0), fixed(n), fixed(l), (time * 1e6).round() as i64);
        assert!(close(c, float_saturn(n, l, time)));
    }
}

#[test]
fn earth_agrees_with_floating_point() {
    let t = real_tables();
    for (n, l, time) in samples() {
        let c = shade_earth(&t, vec3(0, 0, 0), fixed(n), fixed(l), (time * 1e6).round() as i64);
        assert!(close(c, float_earth(n, l, time)));
    }
}
