//! The orbital model: an immutable snapshot of the three bodies' radii and
//! distances together with the planet's and moon's current orbit angles. A
//! new snapshot is derived from a base configuration and a scalar time.

use vstd::prelude::*;

use crate::fixed::{div_trunc, lemma_tdiv_le, tdiv, SCALE, TWO_PI_FIX};

verus! {

/// Ticks of the time parameter per full planet orbit.
pub const PLANET_PERIOD: i64 = 720;

/// Ticks of the time parameter per full moon orbit (12x faster).
pub const MOON_PERIOD: i64 = 60;

/// Largest raw time magnitude `derive` accepts; the angles it produces stay
/// within the same bound, which the trigonometric functions accept.
pub const MAX_TIME: i64 = 0x100_0000_0000;

/// The planet's orbit angle at raw time `t`: `t / 720 * 2*pi`. `t` is in raw
/// units, so the period is rescaled by `SCALE`.
pub open spec fn planet_angle_s(t: int) -> int {
    tdiv(t * TWO_PI_FIX, PLANET_PERIOD as int * SCALE as int)
}

/// The moon's orbit angle at raw time `t`: `t / 60 * 2*pi`.
pub open spec fn moon_angle_s(t: int) -> int {
    tdiv(t * TWO_PI_FIX, MOON_PERIOD as int * SCALE as int)
}

/// The snapshot that `derive` produces at raw time `t`: the base
/// configuration with both orbit angles recomputed.
pub open spec fn scene_at_s(base: OrbitalScene, t: int) -> OrbitalScene {
    OrbitalScene {
        planet_orbit_angle: planet_angle_s(t) as i64,
        moon_orbit_angle: moon_angle_s(t) as i64,
        ..base
    }
}

/// A snapshot of the scene: all lengths are fixed-point world units, both
/// angles fixed-point radians.
#[derive(Clone, Copy, PartialEq, Eq, Structural, Debug)]
pub struct OrbitalScene {
    /// Radius of the star, which sits at the world origin.
    pub star_radius: i64,
    /// Radius of the planet.
    pub planet_radius: i64,
    /// Radius of the moon.
    pub moon_radius: i64,
    /// Distance from the star to the planet's centre.
    pub star_to_planet: i64,
    /// Distance from the planet to the moon's centre.
    pub planet_to_moon: i64,
    /// Rotation of the planet around the star, in the y = 0 plane.
    pub planet_orbit_angle: i64,
    /// Rotation of the moon around the planet, composed on top of the
    /// planet's own orbit rotation.
    pub moon_orbit_angle: i64,
}

impl OrbitalScene {
    /// Radii and distances are non-negative and at most 64 world units, and
    /// the angles stay within what the trigonometric functions accept.
    pub open spec fn wf(self) -> bool {
        &&& 0 <= self.star_radius <= 0x40_0000
        &&& 0 <= self.planet_radius <= 0x40_0000
        &&& 0 <= self.moon_radius <= 0x40_0000
        &&& 0 <= self.star_to_planet <= 0x40_0000
        &&& 0 <= self.planet_to_moon <= 0x40_0000
        &&& -MAX_TIME <= self.planet_orbit_angle <= MAX_TIME
        &&& -MAX_TIME <= self.moon_orbit_angle <= MAX_TIME
    }

    pub fn new(
        star_radius: i64,
        planet_radius: i64,
        moon_radius: i64,
        star_to_planet: i64,
        planet_to_moon: i64,
        planet_orbit_angle: i64,
        moon_orbit_angle: i64,
    ) -> (s: OrbitalScene)
        ensures
            s == (OrbitalScene {
                star_radius,
                planet_radius,
                moon_radius,
                star_to_planet,
                planet_to_moon,
                planet_orbit_angle,
                moon_orbit_angle,
            }),
    {
        OrbitalScene {
            star_radius,
            planet_radius,
            moon_radius,
            star_to_planet,
            planet_to_moon,
            planet_orbit_angle,
            moon_orbit_angle,
        }
    }

    /// The snapshot at raw time `t`: radii and distances are copied
    /// unchanged, and the two orbit angles are recomputed from `t` alone.
    /// The angles grow without bound with `t` and wrap only inside the
    /// trigonometric functions.
    pub fn derive(&self, t: i64) -> (s: OrbitalScene)
        requires
            -MAX_TIME <= t <= MAX_TIME,
        ensures
            s.star_radius == self.star_radius,
            s.planet_radius == self.planet_radius,
            s.moon_radius == self.moon_radius,
            s.star_to_planet == self.star_to_planet,
            s.planet_to_moon == self.planet_to_moon,
            s.planet_orbit_angle == planet_angle_s(t as int),
            s.moon_orbit_angle == moon_angle_s(t as int),
            -MAX_TIME <= s.planet_orbit_angle <= MAX_TIME,
            -MAX_TIME <= s.moon_orbit_angle <= MAX_TIME,
    {
        proof {
            lemma_tdiv_le(
                t as int * TWO_PI_FIX,
                PLANET_PERIOD as int * SCALE as int,
                MAX_TIME as int,
            );
            lemma_tdiv_le(t as int * TWO_PI_FIX, MOON_PERIOD as int * SCALE as int, MAX_TIME as int);
        }
        OrbitalScene {
            star_radius: self.star_radius,
            planet_radius: self.planet_radius,
            moon_radius: self.moon_radius,
            star_to_planet: self.star_to_planet,
            planet_to_moon: self.planet_to_moon,
            planet_orbit_angle: div_trunc(t * TWO_PI_FIX, PLANET_PERIOD * SCALE),
            moon_orbit_angle: div_trunc(t * TWO_PI_FIX, MOON_PERIOD * SCALE),
        }
    }
}

} // verus!
