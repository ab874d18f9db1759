use std::f64::consts::{PI, TAU};

use kepler::orbit::{Dir3, Orbit};
use kepler::wide::UInt;
use rand::Rng;

fn assert_err(calculated: UInt, expected: u128, error: f64, msg: &str) {
    let calc = u128::try_from(calculated).unwrap() as f64;
    let mut ex = expected as f64;
    if ex == 0.0 {
        ex = 0.000000001;
    }
    let err = ((calc - ex) / ex).abs();
    if err > error {
        panic!(
            "{msg}: error is {:.4}%, maximum allowed is {:.4}%\ncalculated: {calc}, expected: {ex}",
            err * 100.0,
            error * 100.0
        );
    }
}

fn assert_err_wide(calculated: UInt, expected: UInt, error: f64, msg: &str) {
    assert_err(calculated, u128::try_from(expected).unwrap(), error, msg);
}

fn assert_angle(calculated_urad: i64, expected: f64, error: f64, msg: &str) {
    let calculated = calculated_urad as f64 / 1e6;
    let diff = (calculated - expected + PI) % TAU - PI;
    let err = diff / TAU;
    if err.abs() > error {
        panic!(
            "{msg}: error is {:.4}%, maximum allowed is {:.4}%\ncalculated: {calculated}, expected: {expected}",
            err * 100.0,
            error * 100.0
        );
    }
}

#[test]
fn earth_sun() {
    // numbers taken from https://nssdc.gsfc.nasa.gov/planetary/factsheet/earthfact.html
    let sol = UInt::from(1_988_500_000_000_000_000_000_000u128);
    let o = Orbit::earth();
    assert_err(o.perihelion(), 147095000, 0.00028, "perihelion failed");
    assert_err(o.aphelion(), 152100000, 0.00028, "aphelion failed");
    assert_err_wide(
        o.orbital_distance(0),
        o.perihelion(),
        0.00002,
        "orbital distance @ perihelion failed",
    );
    assert_err_wide(
        o.orbital_distance(3_141_592),
        o.aphelion(),
        0.00002,
        "orbital distance @ aphelion failed",
    );
    let per = o.orbital_period(&sol);
    assert_err(per, 31558809, 0.0001, "orbital period failed");
    let half = per / UInt::from(2u128);
    assert_angle(
        o.predict_from(&sol, 0, &half),
        PI,
        0.001,
        "orbital predictions failed for half orbit",
    );
    assert_angle(
        o.predict_from(&sol, 3_141_592, &half),
        0.0,
        0.001,
        "orbital predictions failed for half orbit",
    );
}

#[test]
fn earth_moon() {
    // numbers taken from https://nssdc.gsfc.nasa.gov/planetary/factsheet/moonfact.html
    let sol = UInt::from(5_972_000_000_000_000_000u128);
    let o = Orbit::moon();
    assert_err(o.perihelion(), 363300, 0.00002, "perihelion failed");
    assert_err(o.aphelion(), 405500, 0.00002, "aphelion failed");
    assert_err_wide(
        o.orbital_distance(0),
        o.perihelion(),
        0.0,
        "orbital distance @ perihelion failed",
    );
    assert_err_wide(
        o.orbital_distance(3_141_592),
        o.aphelion(),
        0.0,
        "orbital distance @ aphelion failed",
    );
    let per = o.orbital_period(&sol);
    assert_err(per, 2360594, 0.005, "orbital period failed");
    let half = per / UInt::from(2u128);
    assert_angle(
        o.predict_from(&sol, 0, &half),
        PI,
        0.001,
        "orbital predictions failed for half orbit",
    );
    assert_angle(
        o.predict_from(&sol, 3_141_592, &half),
        0.0,
        0.001,
        "orbital predictions failed for half orbit",
    );
}

#[test]
fn circular() {
    let mut rng = rand::thread_rng();
    // the speed comparison carries a 20% tolerance against an integer
    // expectation, so redraw until that expectation is coarse-grained enough
    // (at least 300 km/s over a period of hours) for truncation to stay
    // inside it
    let (semimajor, mass, per) = loop {
        let semimajor = UInt::from(rng.gen_range(1_000u128..1_000_000u128));
        let mass = UInt::from(rng.gen_range(1_000_000_000_000_000u128..10_000_000_000_000_000_000_000_000u128));
        let o = Orbit::circular(semimajor, Dir3 { x: 0, y: 0, z: 0 }, 0);
        let per = o.orbital_period(&mass);
        if per < UInt::from(10_000u128) {
            continue;
        }
        let expected = UInt::from(6283185u128) * semimajor / per / UInt::from(1_000_000u128);
        if expected >= UInt::from(300u128) {
            break (semimajor, mass, per);
        }
    };
    let o = Orbit::circular(semimajor, Dir3 { x: 0, y: 0, z: 0 }, 0);
    println!("semimajor = {semimajor}, mass = {mass}, orbital period = {per}");
    assert_err_wide(
        o.orbital_speed(&mass, 0),
        UInt::from(6283185u128) * semimajor / per / UInt::from(1_000_000u128),
        0.2,
        "orbital speed failed",
    );
    // the half-orbit prediction compares against half the integer period,
    // which quantizes the true period to about one part in (period / tau):
    // redraw until the period is long enough for that to sit far inside the
    // 0.1% tolerance
    let (semimajor2, mass2, per2) = loop {
        let semimajor2 = UInt::from(rng.gen_range(1_000u128..1_000_000u128));
        let mass2 = UInt::from(rng.gen_range(1_000_000_000_000_000u128..10_000_000_000_000_000_000_000_000u128));
        let o2 = Orbit::circular(semimajor2, Dir3 { x: 0, y: 0, z: 0 }, 0);
        let per2 = o2.orbital_period(&mass2);
        if per2 >= UInt::from(100_000u128) {
            break (semimajor2, mass2, per2);
        }
    };
    let o2 = Orbit::circular(semimajor2, Dir3 { x: 0, y: 0, z: 0 }, 0);
    let half = per2 / UInt::from(2u128);
    assert_angle(
        o2.predict_from(&mass2, 0, &half),
        PI,
        0.001,
        "orbital predictions failed for half orbit",
    );
}

#[test]
fn half_period_symmetry_from_any_angle() {
    // on a circular orbit the body advances uniformly, so half a period
    // moves any starting angle half a turn along; on an eccentric orbit that
    // holds at the apsides (the earth and moon scenarios check those)
    let mass = UInt::from(1_988_500_000_000_000_000_000_000u128);
    let o = Orbit::circular(UInt::from(100_000_000u128), Dir3 { x: 0, y: 0, z: 0 }, 0);
    let per = o.orbital_period(&mass);
    let half = per / UInt::from(2u128);
    for start in [0i64, 1_000_000, 2_500_000, 4_000_000, 6_000_000] {
        let expected = (start as f64 / 1e6 + PI) % TAU;
        assert_angle(
            o.predict_from(&mass, start, &half),
            expected,
            0.001,
            "half-period symmetry failed",
        );
    }
}

#[test]
fn forward_continuation_matches_direct() {
    // predicting to t2 through a cached (t1, angle) result agrees with a
    // direct prediction to t2
    let sol = UInt::from(1_988_500_000_000_000_000_000_000u128);
    let o = Orbit::earth();
    let per = o.orbital_period(&sol);
    let t1 = per / UInt::from(3u128);
    let t2 = per / UInt::from(2u128);
    let at_t1 = o.predict(&sol, &t1, None);
    let direct = o.predict(&sol, &t2, None);
    let continued = o.predict(&sol, &t2, Some((t1, at_t1)));
    assert_angle(
        continued,
        direct as f64 / 1e6,
        0.001,
        "forward continuation diverged from the direct prediction",
    );
}
