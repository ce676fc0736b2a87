use humidity_projection::projection::{project, Projected};
use humidity_projection::sample::Sample;
use humidity_projection::table::{project_rows, reference_temperatures};

/// Saturation pressure in millipascal at a temperature in thousandths of a
/// degree Celsius.
fn pressure(milli_celsius: i64) -> u64 {
    let kelvin = milli_celsius as f64 / 1000.0 + 273.15;
    (rust_steam::p_sat(kelvin) * 1e9).round() as u64
}

fn reference_pressures() -> Vec<u64> {
    reference_temperatures().into_iter().map(pressure).collect()
}

#[test]
fn saturation_pressure_increases_over_weather_range() {
    let mut prev = rust_steam::p_sat(-20.0 + 273.15);
    let mut t = -20.0 + 0.25;
    while t <= 45.0 {
        let p = rust_steam::p_sat(t + 273.15);
        assert!(p.is_finite());
        assert!(p > prev, "not increasing at {t}");
        prev = p;
        t += 0.25;
    }
}

#[test]
fn reference_temperatures_are_the_header() {
    let r = reference_temperatures();
    assert_eq!(r.len(), 13);
    assert_eq!(r[0], 16_000);
    assert_eq!(r[1], 16_500);
    assert_eq!(r[12], 22_000);
}

#[test]
fn projecting_onto_own_temperature_is_identity() {
    for &(t, h) in &[(-5_000i64, 91_000u64), (12_300, 55_500), (31_000, 20_000)] {
        let p = pressure(t);
        let r = project(h, p, &vec![p]);
        assert_eq!(r.len(), 1);
        assert_eq!(r[0].numerator, h as u128 * r[0].denominator as u128);
        assert_eq!(r[0].tenths_of_percent(), (h / 100) as u128);
    }
}

#[test]
fn morning_sample_at_its_own_temperature() {
    let r = project(50_000, pressure(22_000), &vec![pressure(22_000)]);
    assert_eq!(r[0].tenths_of_percent(), 500);
}

#[test]
fn doubling_humidity_doubles_projection() {
    let refs = reference_pressures();
    let a = project(30_000, pressure(8_000), &refs);
    let b = project(60_000, pressure(8_000), &refs);
    for (x, y) in a.iter().zip(b.iter()) {
        assert_eq!(y.numerator, 2 * x.numerator);
        assert_eq!(y.denominator, x.denominator);
    }
}

#[test]
fn warm_humid_air_supersaturates_cool_room() {
    let r = project(80_000, pressure(25_000), &vec![pressure(16_000)]);
    assert!(r[0].tenths_of_percent() > 1000);
    assert!(r[0].numerator > 100_000 * r[0].denominator as u128);
}

#[test]
fn projection_is_exact_ratio() {
    let r = project(40_000, 3, &vec![2, 4, 3]);
    assert_eq!(r, vec![
        Projected { numerator: 120_000, denominator: 2 },
        Projected { numerator: 120_000, denominator: 4 },
        Projected { numerator: 120_000, denominator: 3 },
    ]);
    assert_eq!(r[0].tenths_of_percent(), 600);
    assert_eq!(r[1].tenths_of_percent(), 300);
    assert_eq!(r[2].tenths_of_percent(), 400);
    assert!(project(40_000, 3, &Vec::new()).is_empty());
}

#[test]
fn tenths_round_half_up() {
    assert_eq!(Projected { numerator: 1_049, denominator: 1 }.tenths_of_percent(), 10);
    assert_eq!(Projected { numerator: 1_050, denominator: 1 }.tenths_of_percent(), 11);
    assert_eq!(Projected { numerator: 0, denominator: 7 }.tenths_of_percent(), 0);
}

#[test]
fn rows_follow_samples_and_header() {
    let samples = vec![
        Sample { minute: 0, temperature: 10_000, humidity: 70_000 },
        Sample { minute: 60, temperature: 20_000, humidity: 40_000 },
    ];
    let obs: Vec<u64> = samples.iter().map(|s| pressure(s.temperature)).collect();
    let refs = reference_pressures();
    let rows = project_rows(&samples, &obs, &refs);
    assert_eq!(rows.len(), 2);
    assert_eq!(rows[0].len(), 13);
    assert_eq!(rows[1][8].tenths_of_percent(), 400);
    assert!(rows[0][0].tenths_of_percent() < 700);
}
