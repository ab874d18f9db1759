use kepler::orbit::{Dir3, Orbit};
use kepler::sector::{Star, StarData};
use kepler::trig::{cos_fixed, sin_fixed};
use kepler::wide::UInt;

#[test]
fn cosine_landmarks() {
    assert_eq!(cos_fixed(0), 1_000_000);
    assert_eq!(cos_fixed(3_141_592), -1_000_000);
    assert_eq!(cos_fixed(6_283_185), 1_000_000);
    // a full turn down leaves the angle unchanged
    assert_eq!(cos_fixed(-6_283_185 + 1_000_000), cos_fixed(1_000_000));
    // the quarter turn lands within a thousandth of zero
    assert!(cos_fixed(1_570_796).abs() <= 1_000);
    assert!((sin_fixed(1_570_796) - 1_000_000).abs() <= 1_000);
    assert_eq!(sin_fixed(0), cos_fixed(-1_570_796));
    // negative angles reduce into the same turn
    assert_eq!(cos_fixed(-3_141_593), cos_fixed(6_283_185 - 3_141_593));
}

#[test]
fn distance_extremes_are_exact() {
    // the fixed-point divisions cancel exactly at both apsides
    for o in [Orbit::earth(), Orbit::moon()] {
        assert_eq!(o.orbital_distance(0), o.perihelion());
        assert_eq!(o.orbital_distance(3_141_592), o.aphelion());
    }
}

#[test]
fn circular_speed_is_angle_independent() {
    let mass = UInt::from(100_000_000_000_000_000_000u128);
    let o = Orbit::circular(UInt::from(50_000u128), Dir3 { x: 0, y: 0, z: 0 }, 0);
    let v0 = o.orbital_speed(&mass, 0);
    for theta in [500_000i64, 1_570_796, 3_141_592, 5_000_000, -2_000_000] {
        assert_eq!(o.orbital_speed(&mass, theta), v0);
    }
    // sqrt(G * m * (2/a - 1/a)) at this scale comes out at 11 km/s exactly
    assert_eq!(v0, UInt::from(11u128));
}

#[test]
fn earth_period_exact_value() {
    // the fixed-point Kepler formula is deterministic down to the second
    let sol = UInt::from(1_988_500_000_000_000_000_000_000u128);
    let o = Orbit::earth();
    assert_eq!(o.orbital_period(&sol), UInt::from(31_557_516u128));
}

#[test]
fn distance_is_even_and_periodic_in_the_angle() {
    // the distance depends on the angle only through its cosine, which is
    // exactly even and periodic, including on a sharply eccentric orbit
    assert_eq!(cos_fixed(-2_000_000), cos_fixed(2_000_000));
    let o = Orbit {
        focus: Dir3 { x: 0, y: 0, z: 0 },
        start: 0,
        semimajor: UInt::from(1_000_000u128),
        eccentricity: 500_002,
    };
    assert_eq!(o.orbital_distance(-2_000_000), o.orbital_distance(2_000_000));
    assert_eq!(o.orbital_distance(2_000_000), UInt::from(947_014u128));
    for theta in [0i64, 1, 2_000_000, 3_141_592, -5_000_000] {
        assert_eq!(o.orbital_distance(theta + 6_283_185), o.orbital_distance(theta));
    }
}

#[test]
fn speed_falls_from_perihelion_to_aphelion() {
    let sol = UInt::from(5_972_000_000_000_000_000u128);
    let o = Orbit::moon();
    assert!(o.orbital_speed(&sol, 0) > o.orbital_speed(&sol, 3_141_592));
    // at a hundred times the mass the two radicand roots sit a full output
    // unit apart, the regime where strictness is proved
    let heavy = UInt::from(597_200_000_000_000_000_000u128);
    assert_eq!(o.orbital_speed(&heavy, 0), UInt::from(10u128));
    assert_eq!(o.orbital_speed(&heavy, 3_141_592), UInt::from(8u128));
}

#[test]
fn stale_continuation_restarts_from_epoch() {
    // a pair dated at or past the requested time is ignored, bit for bit
    let sol = UInt::from(1_988_500_000_000_000_000_000_000u128);
    let o = Orbit::earth();
    let per = o.orbital_period(&sol);
    let t1 = per / UInt::from(3u128);
    let t2 = per / UInt::from(2u128);
    let direct = o.predict(&sol, &t1, None);
    assert_eq!(o.predict(&sol, &t1, Some((t2, 123_456))), direct);
    assert_eq!(o.predict(&sol, &t1, Some((t1, 123_456))), direct);
}

#[test]
fn earth_preset_fields() {
    let o = Orbit::earth();
    assert_eq!(o.semimajor, UInt::from(149_598_000u128));
    assert_eq!(o.eccentricity, 17_000);
    assert_eq!(o.start, 0);
    assert_eq!(o.focus, Dir3 { x: 1_000_000, y: 0, z: 0 });
    let m = Orbit::moon();
    assert_eq!(m.semimajor, UInt::from(384_400u128));
    assert_eq!(m.eccentricity, 54_900);
}

#[test]
fn sunlike_power_output() {
    let star = StarData {
        temperature: 5772,
        mass: UInt::from(1_988_500_000_000_000_000_000_000u128),
        radius: UInt::from(695_700u128),
    };
    let expected = UInt::from(3_827_939_867_540_314_925_681_815u128);
    assert_eq!(star.power_output(), expected);
    let single = Star::Single(star);
    assert_eq!(single.power_output(), expected);
    assert_eq!(single.mass(), UInt::from(1_988_500_000_000_000_000_000_000u128));
}

#[test]
fn binary_pair_sums() {
    let a = StarData {
        temperature: 4000,
        mass: UInt::from(1_000_000_000_000u128),
        radius: UInt::from(400_000u128),
    };
    let b = StarData {
        temperature: 6000,
        mass: UInt::from(2_500_000_000_000u128),
        radius: UInt::from(800_000u128),
    };
    let pair = Star::Binary(a, b);
    assert_eq!(pair.mass(), UInt::from(3_500_000_000_000u128));
    let lone_a = Star::Single(StarData { temperature: 4000, mass: a.mass, radius: a.radius });
    let lone_b = Star::Single(StarData { temperature: 6000, mass: b.mass, radius: b.radius });
    assert_eq!(pair.power_output(), lone_a.power_output() + lone_b.power_output());
}

#[test]
fn period_grows_with_semimajor_axis() {
    let mass = UInt::from(1_988_500_000_000_000_000_000_000u128);
    let near = Orbit::circular(UInt::from(100_000_000u128), Dir3 { x: 0, y: 0, z: 0 }, 0);
    let far = Orbit::circular(UInt::from(200_000_000u128), Dir3 { x: 0, y: 0, z: 0 }, 0);
    assert!(near.orbital_period(&mass) < far.orbital_period(&mass));
}
