use starscape::fixed::{SCALE, TWO_PI_FIX};
use starscape::scene::OrbitalScene;

const S: i64 = SCALE;

fn base() -> OrbitalScene {
    // radii 2.5, 2.0, 0.66; distances 12.0 and 4.0; angles start at zero
    OrbitalScene::new(5 * S / 2, 2 * S, 66 * S / 100, 12 * S, 4 * S, 0, 0)
}

#[test]
fn derive_at_zero_gives_zero_angles() {
    let s = base().derive(0);
    assert_eq!(s.planet_orbit_angle, 0);
    assert_eq!(s.moon_orbit_angle, 0);
}

#[test]
fn derive_full_periods_give_full_turns() {
    // one planet period: 720 time units
    let s = base().derive(720 * S);
    assert_eq!(s.planet_orbit_angle, TWO_PI_FIX);
    // one moon period: 60 time units
    let m = base().derive(60 * S);
    assert_eq!(m.moon_orbit_angle, TWO_PI_FIX);
    // the moon orbits 12 times faster
    assert_eq!(s.moon_orbit_angle, 12 * TWO_PI_FIX);
}

#[test]
fn derive_copies_configuration() {
    let s = base().derive(12345);
    assert_eq!(s.star_radius, 5 * S / 2);
    assert_eq!(s.planet_radius, 2 * S);
    assert_eq!(s.moon_radius, 66 * S / 100);
    assert_eq!(s.star_to_planet, 12 * S);
    assert_eq!(s.planet_to_moon, 4 * S);
}
