use solar_raytracer::fixed::ONE;
use solar_raytracer::tables::{Exponent, Tables, CURVE_LEN, TWO_PI, WAVE_LEN};

fn triangle_wave() -> Vec<i64> {
    let mut sine = Vec::new();
    for k in 0..4096i64 {
        let v = if k <= 1024 {
            k * ONE / 1024
        } else if k <= 2048 {
            (2048 - k) * ONE / 1024
        } else if k <= 3072 {
            -((k - 2048) * ONE / 1024)
        } else {
            -((4096 - k) * ONE / 1024)
        };
        sine.push(v);
    }
    sine
}

fn ramp(top: i64) -> Vec<i64> {
    (0..1025i64).map(|k| k * top / 1024).collect()
}

fn squares() -> Vec<i64> {
    (0..1025i64).map(|k| k * k * ONE / (1024 * 1024)).collect()
}

fn toy_tables() -> Tables {
    Tables::new(triangle_wave(), ramp(250_000), ramp(ONE), ramp(ONE), squares(), squares()).unwrap()
}

#[test]
fn sizes_of_the_curves() {
    assert_eq!(WAVE_LEN, 4096);
    assert_eq!(CURVE_LEN, 1025);
    assert_eq!(TWO_PI, 6_283_185);
}

#[test]
fn valid_samples_are_taken() {
    assert!(Tables::new(triangle_wave(), ramp(250_000), ramp(ONE), ramp(ONE), squares(), squares())
        .is_some());
}

#[test]
fn a_wave_of_the_wrong_length_is_refused() {
    let mut sine = triangle_wave();
    sine.push(0);
    assert!(Tables::new(sine, ramp(250_000), ramp(ONE), ramp(ONE), squares(), squares()).is_none());
    assert!(Tables::new(Vec::new(), ramp(250_000), ramp(ONE), ramp(ONE), squares(), squares())
        .is_none());
}

#[test]
fn a_wave_out_of_range_is_refused() {
    let mut sine = triangle_wave();
    sine[7] = ONE + 1;
    assert!(Tables::new(sine, ramp(250_000), ramp(ONE), ramp(ONE), squares(), squares()).is_none());
    let mut sine = triangle_wave();
    sine[4000] = -ONE - 1;
    assert!(Tables::new(sine, ramp(250_000), ramp(ONE), ramp(ONE), squares(), squares()).is_none());
}

#[test]
fn a_wave_that_does_not_start_at_zero_is_refused() {
    let mut sine = triangle_wave();
    sine[0] = 1;
    assert!(Tables::new(sine, ramp(250_000), ramp(ONE), ramp(ONE), squares(), squares()).is_none());
}

#[test]
fn a_wave_that_does_not_peak_after_a_quarter_is_refused() {
    let mut sine = triangle_wave();
    sine[1024] = ONE - 1;
    assert!(Tables::new(sine, ramp(250_000), ramp(ONE), ramp(ONE), squares(), squares()).is_none());
}

#[test]
fn a_curve_of_the_wrong_length_is_refused() {
    let mut short = ramp(ONE);
    short.pop();
    assert!(Tables::new(triangle_wave(), ramp(250_000), short.clone(), ramp(ONE), squares(), squares())
        .is_none());
    assert!(Tables::new(triangle_wave(), ramp(250_000), ramp(ONE), short.clone(), squares(), squares())
        .is_none());
    assert!(Tables::new(triangle_wave(), ramp(250_000), ramp(ONE), ramp(ONE), short.clone(), squares())
        .is_none());
    assert!(Tables::new(triangle_wave(), ramp(250_000), ramp(ONE), ramp(ONE), squares(), short.clone())
        .is_none());
    assert!(Tables::new(triangle_wave(), short, ramp(ONE), ramp(ONE), squares(), squares()).is_none());
}

#[test]
fn a_curve_out_of_range_is_refused() {
    let mut low = ramp(ONE);
    low[3] = -1;
    assert!(Tables::new(triangle_wave(), ramp(250_000), low, ramp(ONE), squares(), squares())
        .is_none());
    let mut high = squares();
    high[1000] = ONE + 1;
    assert!(Tables::new(triangle_wave(), ramp(250_000), ramp(ONE), ramp(ONE), squares(), high)
        .is_none());
    assert!(Tables::new(triangle_wave(), ramp(250_001), ramp(ONE), ramp(ONE), squares(), squares())
        .is_none());
}

#[test]
fn sine_and_cosine_at_zero() {
    let t = toy_tables();
    assert_eq!(t.sin(0), 0);
    assert_eq!(t.cos(0), ONE);
}

#[test]
fn sine_and_cosine_are_looked_up_by_phase() {
    let t = toy_tables();
    assert_eq!(t.sin(1_570_796), 999_023);
    assert_eq!(t.cos(3_141_592), -999_023);
    assert_eq!(t.sin(7_000_000), 456_054);
}

#[test]
fn sine_of_a_negative_angle() {
    let t = toy_tables();
    assert_eq!(t.sin(-1_000_000), -636_718);
}

#[test]
fn sine_has_the_period_of_the_table() {
    let t = toy_tables();
    for x in [0i64, 1, 999_999, 3_000_000, -2_500_000] {
        assert_eq!(t.sin(x + TWO_PI), t.sin(x));
        assert_eq!(t.cos(x - TWO_PI), t.cos(x));
    }
}

#[test]
fn sine_accepts_every_angle() {
    let t = toy_tables();
    for x in [i64::MIN, i64::MIN + 1, -1, i64::MAX] {
        let s = t.sin(x);
        let c = t.cos(x);
        assert!(-ONE <= s && s <= ONE);
        assert!(-ONE <= c && c <= ONE);
    }
}

#[test]
fn angle_over_pi_in_each_quadrant() {
    let t = toy_tables();
    assert_eq!(t.atan2_pi(ONE, ONE), 250_000);
    assert_eq!(t.atan2_pi(ONE, -ONE), 750_000);
    assert_eq!(t.atan2_pi(-ONE, -ONE), -750_000);
    assert_eq!(t.atan2_pi(-500_000, ONE), -125_000);
}

#[test]
fn angle_over_pi_on_the_axes() {
    let t = toy_tables();
    assert_eq!(t.atan2_pi(0, ONE), 0);
    assert_eq!(t.atan2_pi(ONE, 0), 500_000);
    assert_eq!(t.atan2_pi(0, -ONE), ONE);
    assert_eq!(t.atan2_pi(-ONE, 0), -500_000);
}

#[test]
fn angle_of_the_origin_is_zero() {
    assert_eq!(toy_tables().atan2_pi(0, 0), 0);
}

#[test]
fn angle_accepts_extreme_coordinates() {
    let t = toy_tables();
    assert_eq!(t.atan2_pi(i64::MIN, i64::MIN), -750_000);
    assert_eq!(t.atan2_pi(i64::MAX, i64::MIN), 750_245);
}

#[test]
fn powers_are_looked_up_by_exponent() {
    let t = toy_tables();
    assert_eq!(t.pow(Exponent::ThreeHalves, 500_000), 250_000);
    assert_eq!(t.pow(Exponent::EightFifths, 500_000), 250_000);
    assert_eq!(t.pow(Exponent::SixFifths, 500_000), 500_000);
    assert_eq!(t.pow(Exponent::ThirteenTenths, 250_000), 250_000);
}

#[test]
fn powers_limit_their_argument() {
    let t = toy_tables();
    assert_eq!(t.pow(Exponent::EightFifths, 2 * ONE), ONE);
    assert_eq!(t.pow(Exponent::ThirteenTenths, -5), 0);
}

#[test]
fn each_exponent_has_its_own_curve() {
    let mut p12 = vec![0i64; 1025];
    let mut p13 = vec![0i64; 1025];
    let mut p15 = vec![0i64; 1025];
    let mut p16 = vec![0i64; 1025];
    p12[1024] = 12;
    p13[1024] = 13;
    p15[1024] = 15;
    p16[1024] = 16;
    let t = Tables::new(triangle_wave(), ramp(250_000), p12, p13, p15, p16).unwrap();
    assert_eq!(t.pow(Exponent::SixFifths, ONE), 12);
    assert_eq!(t.pow(Exponent::ThirteenTenths, ONE), 13);
    assert_eq!(t.pow(Exponent::ThreeHalves, ONE), 15);
    assert_eq!(t.pow(Exponent::EightFifths, ONE), 16);
}

#[test]
fn samples_of_the_real_curves_are_valid() {
    let pi = std::f64::consts::PI;
    let sine: Vec<i64> =
        (0..4096).map(|k| ((2.0 * pi * k as f64 / 4096.0).sin() * 1e6).round() as i64).collect();
    let arctan: Vec<i64> =
        (0..1025).map(|k| ((k as f64 / 1024.0).atan() / pi * 1e6).round() as i64).collect();
    let power = |e: f64| -> Vec<i64> {
        (0..1025).map(|k| ((k as f64 / 1024.0).powf(e) * 1e6).round() as i64).collect()
    };
    let t = Tables::new(sine, arctan, power(1.2), power(1.3), power(1.5), power(1.6)).unwrap();
    assert!((t.sin(1_000_000) - 841_471).abs() < 1_500);
    assert!((t.cos(1_000_000) - 540_302).abs() < 1_500);
    assert!((t.atan2_pi(ONE, 2 * ONE) - 147_584).abs() < 400);
    assert!((t.pow(Exponent::ThreeHalves, 250_000) - 125_000).abs() < 10);
}
