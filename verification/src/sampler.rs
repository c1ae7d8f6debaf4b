//! Surface sampling: each body is a sphere sampled over a fixed
//! latitude/longitude grid. A grid is described by its radius, two basis
//! vectors of its equatorial plane (carrying the body's orbital rotation),
//! its world-space centre, the grid resolution, the body's base colour, and
//! whether its normals point inward (the star renders as a self-luminous
//! shell, so its visible hemisphere must face the camera like any opaque
//! sphere; inverting the normals achieves that).

use vstd::prelude::*;

use crate::fixed::{
    cos_fix, cos_s, div_trunc, fmul, fmul_s, lemma_tdiv_le, lemma_tdiv_shrinks, sin_fix, sin_s,
    tdiv, PI_FIX, SCALE, TWO_PI_FIX,
};
use crate::framebuffer::Color;
use crate::scene::OrbitalScene;
use crate::vector::{
    add_s, in_range, lemma_nonzero_norm, lemma_prod_bound, lemma_prod_bound2, neg_s,
    normalized_s, times_s, zero3, Vec3i, Vector3,
};

verus! {

/// Largest raw body radius or orbital distance (64 world units).
pub const LEN_MAX: i64 = 0x40_0000;

/// Largest grid resolution per axis.
pub const STEPS_MAX: u32 = 0x1000;

/// One body's sampling grid.
#[derive(Clone, Copy, PartialEq, Eq, Structural, Debug)]
pub struct BodyGrid {
    pub radius: i64,
    pub axis_u: Vector3,
    pub axis_v: Vector3,
    pub center: Vector3,
    pub lat_steps: u32,
    pub lon_steps: u32,
    pub color: Color,
    pub inward: bool,
}

impl BodyGrid {
    pub open spec fn wf(self) -> bool {
        &&& 0 <= self.radius <= LEN_MAX
        &&& in_range(self.axis_u@, 0x2_0000)
        &&& in_range(self.axis_v@, 0x2_0000)
        &&& in_range(self.center@, 0x100_0000)
        &&& 1 <= self.lat_steps <= STEPS_MAX
        &&& 1 <= self.lon_steps <= STEPS_MAX
    }
}

/// World position of grid sample `(i, j)`: latitude angle `i/lat * pi`,
/// longitude angle `j/lon * 2*pi`, mapped onto the sphere through the grid's
/// basis vectors and offset by its centre.
pub open spec fn sample_pos_s(g: BodyGrid, i: int, j: int) -> Vec3i {
    let a = tdiv(i * PI_FIX, g.lat_steps as int);
    let b = tdiv(j * TWO_PI_FIX, g.lon_steps as int);
    let k1 = fmul_s(g.radius as int, fmul_s(cos_s(b), sin_s(a)));
    let k2 = fmul_s(g.radius as int, fmul_s(sin_s(b), sin_s(a)));
    let ky = fmul_s(g.radius as int, cos_s(a));
    add_s(
        add_s(times_s(g.axis_u@, k1), times_s(g.axis_v@, k2)),
        add_s(Vec3i { x: 0, y: ky, z: 0 }, g.center@),
    )
}

/// Direction from the grid's centre to sample `(i, j)`.
pub open spec fn sample_dir_s(g: BodyGrid, i: int, j: int) -> Vec3i {
    add_s(sample_pos_s(g, i, j), neg_s(g.center@))
}

/// The unit-scale surface normal at sample `(i, j)`: outward from the
/// centre, or inverted for an inward grid.
pub open spec fn sample_normal_s(g: BodyGrid, i: int, j: int) -> Vec3i {
    if g.inward {
        neg_s(normalized_s(sample_dir_s(g, i, j)))
    } else {
        normalized_s(sample_dir_s(g, i, j))
    }
}

/// Bound on a basis vector scaled by a body-sized factor.
proof fn lemma_axis_times_bound(axis: Vec3i, k: int)
    requires
        in_range(axis, 0x2_0000),
        -0x40_0000 <= k <= 0x40_0000,
    ensures
        in_range(times_s(axis, k), 0x80_0000),
{
    lemma_prod_bound2(axis.x, k, 0x2_0000, 0x40_0000);
    lemma_prod_bound2(axis.y, k, 0x2_0000, 0x40_0000);
    lemma_prod_bound2(axis.z, k, 0x2_0000, 0x40_0000);
    lemma_tdiv_le(axis.x * k, SCALE as int, 0x80_0000);
    lemma_tdiv_le(axis.y * k, SCALE as int, 0x80_0000);
    lemma_tdiv_le(axis.z * k, SCALE as int, 0x80_0000);
}

/// Compute one grid sample: its world position, and its surface normal
/// unless the sample is degenerate (it coincides with the grid's centre, so
/// no direction exists; a positive radius never produces this).
pub fn sample_at(g: &BodyGrid, i: u32, j: u32) -> (r: (Vector3, Option<Vector3>))
    requires
        g.wf(),
        i < g.lat_steps,
        j < g.lon_steps,
    ensures
        r.0@ == sample_pos_s(*g, i as int, j as int),
        in_range(r.0@, 0x240_0000),
        r.1 is Some <==> sample_dir_s(*g, i as int, j as int) != zero3(),
        r.1 is Some ==> r.1->Some_0@ == sample_normal_s(*g, i as int, j as int) && in_range(
            r.1->Some_0@,
            SCALE as int,
        ),
{
    proof {
        lemma_tdiv_shrinks(i as int * PI_FIX, g.lat_steps as int);
        lemma_tdiv_shrinks(j as int * TWO_PI_FIX, g.lon_steps as int);
    }
    let a = div_trunc((i as i64) * PI_FIX, g.lat_steps as i64);
    let b = div_trunc((j as i64) * TWO_PI_FIX, g.lon_steps as i64);
    let sa = sin_fix(a);
    let ca = cos_fix(a);
    let sb = sin_fix(b);
    let cb = cos_fix(b);
    proof {
        lemma_prod_bound(cb as int, sa as int, SCALE as int);
        lemma_prod_bound(sb as int, sa as int, SCALE as int);
        lemma_tdiv_le(cb as int * sa as int, SCALE as int, SCALE as int);
        lemma_tdiv_le(sb as int * sa as int, SCALE as int, SCALE as int);
    }
    let cbsa = fmul(cb, sa);
    let sbsa = fmul(sb, sa);
    proof {
        lemma_prod_bound2(g.radius as int, cbsa as int, 0x40_0000, 0x1_0000);
        lemma_prod_bound2(g.radius as int, sbsa as int, 0x40_0000, 0x1_0000);
        lemma_prod_bound2(g.radius as int, ca as int, 0x40_0000, 0x1_0000);
        lemma_tdiv_le(g.radius as int * cbsa as int, SCALE as int, 0x40_0000);
        lemma_tdiv_le(g.radius as int * sbsa as int, SCALE as int, 0x40_0000);
        lemma_tdiv_le(g.radius as int * ca as int, SCALE as int, 0x40_0000);
    }
    let k1 = fmul(g.radius, cbsa);
    let k2 = fmul(g.radius, sbsa);
    let ky = fmul(g.radius, ca);
    proof {
        lemma_axis_times_bound(g.axis_u@, k1 as int);
        lemma_axis_times_bound(g.axis_v@, k2 as int);
    }
    let off1 = g.axis_u.times(k1);
    let off2 = g.axis_v.times(k2);
    let ypart = Vector3::new(0, ky, 0);
    let p = off1.add(&off2).add(&ypart.add(&g.center));
    let cneg = g.center.negate();
    let dir = p.add(&cneg);
    if dir.x == 0 && dir.y == 0 && dir.z == 0 {
        return (p, Option::None);
    }
    proof {
        lemma_nonzero_norm(dir@);
    }
    let u = dir.normalized();
    let n = if g.inward {
        u.negate()
    } else {
        u
    };
    (p, Option::Some(n))
}

/// The star's grid: a full sphere at the world origin with unrotated basis
/// vectors, inward normals, bright yellow.
pub open spec fn star_grid_s(scene: OrbitalScene) -> BodyGrid {
    BodyGrid {
        radius: scene.star_radius,
        axis_u: Vector3 { x: SCALE, y: 0, z: 0 },
        axis_v: Vector3 { x: 0, y: 0, z: SCALE },
        center: Vector3 { x: 0, y: 0, z: 0 },
        lat_steps: 55,
        lon_steps: 270,
        color: Color { r: 255, g: 255, b: 0 },
        inward: true,
    }
}

/// The planet's grid: basis vectors rotated by the planet's orbit angle
/// about the y axis, centred on its orbital position, blue.
pub open spec fn planet_grid_s(scene: OrbitalScene) -> BodyGrid {
    let gc = cos_s(scene.planet_orbit_angle as int);
    let gs = sin_s(scene.planet_orbit_angle as int);
    BodyGrid {
        radius: scene.planet_radius,
        axis_u: Vector3 { x: gc as i64, y: 0, z: (-gs) as i64 },
        axis_v: Vector3 { x: gs as i64, y: 0, z: gc as i64 },
        center: Vector3 {
            x: fmul_s(scene.star_to_planet as int, gc) as i64,
            y: 0,
            z: (-fmul_s(scene.star_to_planet as int, gs)) as i64,
        },
        lat_steps: 55,
        lon_steps: 270,
        color: Color { r: 0, g: 0, b: 255 },
        inward: false,
    }
}

/// The moon's grid: the moon's own orbit rotation composed on top of the
/// planet's, so its orbital plane inherits the planet's rotation; centred at
/// the moon's offset from the planet's position, white.
pub open spec fn moon_grid_s(scene: OrbitalScene) -> BodyGrid {
    let gc = cos_s(scene.planet_orbit_angle as int);
    let gs = sin_s(scene.planet_orbit_angle as int);
    let mc = cos_s(scene.moon_orbit_angle as int);
    let ms = sin_s(scene.moon_orbit_angle as int);
    let t11 = fmul_s(gc, mc) - fmul_s(gs, ms);
    let t31 = -fmul_s(gs, mc) - fmul_s(gc, ms);
    let t13 = fmul_s(gc, ms) + fmul_s(gs, mc);
    let t33 = fmul_s(gc, mc) - fmul_s(gs, ms);
    BodyGrid {
        radius: scene.moon_radius,
        axis_u: Vector3 { x: t11 as i64, y: 0, z: t31 as i64 },
        axis_v: Vector3 { x: t13 as i64, y: 0, z: t33 as i64 },
        center: Vector3 {
            x: (fmul_s(scene.planet_to_moon as int, t11) + fmul_s(
                scene.star_to_planet as int,
                gc,
            )) as i64,
            y: 0,
            z: (fmul_s(scene.planet_to_moon as int, t31) - fmul_s(
                scene.star_to_planet as int,
                gs,
            )) as i64,
        },
        lat_steps: 30,
        lon_steps: 180,
        color: Color { r: 255, g: 255, b: 255 },
        inward: false,
    }
}

/// Build the star's grid.
pub fn star_grid(scene: &OrbitalScene) -> (g: BodyGrid)
    requires
        scene.wf(),
    ensures
        g == star_grid_s(*scene),
        g.wf(),
{
    BodyGrid {
        radius: scene.star_radius,
        axis_u: Vector3 { x: SCALE, y: 0, z: 0 },
        axis_v: Vector3 { x: 0, y: 0, z: SCALE },
        center: Vector3 { x: 0, y: 0, z: 0 },
        lat_steps: 55,
        lon_steps: 270,
        color: Color { r: 255, g: 255, b: 0 },
        inward: true,
    }
}

/// Build the planet's grid from the scene's orbit angle.
pub fn planet_grid(scene: &OrbitalScene) -> (g: BodyGrid)
    requires
        scene.wf(),
    ensures
        g == planet_grid_s(*scene),
        g.wf(),
{
    let gc = cos_fix(scene.planet_orbit_angle);
    let gs = sin_fix(scene.planet_orbit_angle);
    proof {
        lemma_prod_bound2(scene.star_to_planet as int, gc as int, 0x40_0000, 0x1_0000);
        lemma_prod_bound2(scene.star_to_planet as int, gs as int, 0x40_0000, 0x1_0000);
        lemma_tdiv_le(scene.star_to_planet as int * gc as int, SCALE as int, 0x40_0000);
        lemma_tdiv_le(scene.star_to_planet as int * gs as int, SCALE as int, 0x40_0000);
    }
    let cx = fmul(scene.star_to_planet, gc);
    let cz = fmul(scene.star_to_planet, gs);
    BodyGrid {
        radius: scene.planet_radius,
        axis_u: Vector3 { x: gc, y: 0, z: -gs },
        axis_v: Vector3 { x: gs, y: 0, z: gc },
        center: Vector3 { x: cx, y: 0, z: -cz },
        lat_steps: 55,
        lon_steps: 270,
        color: Color { r: 0, g: 0, b: 255 },
        inward: false,
    }
}

/// Build the moon's grid by composing the two orbit rotations.
pub fn moon_grid(scene: &OrbitalScene) -> (g: BodyGrid)
    requires
        scene.wf(),
    ensures
        g == moon_grid_s(*scene),
        g.wf(),
{
    let gc = cos_fix(scene.planet_orbit_angle);
    let gs = sin_fix(scene.planet_orbit_angle);
    let mc = cos_fix(scene.moon_orbit_angle);
    let ms = sin_fix(scene.moon_orbit_angle);
    proof {
        lemma_prod_bound(gc as int, mc as int, SCALE as int);
        lemma_prod_bound(gs as int, ms as int, SCALE as int);
        lemma_prod_bound(gs as int, mc as int, SCALE as int);
        lemma_prod_bound(gc as int, ms as int, SCALE as int);
        lemma_tdiv_le(gc as int * mc as int, SCALE as int, SCALE as int);
        lemma_tdiv_le(gs as int * ms as int, SCALE as int, SCALE as int);
        lemma_tdiv_le(gs as int * mc as int, SCALE as int, SCALE as int);
        lemma_tdiv_le(gc as int * ms as int, SCALE as int, SCALE as int);
    }
    let t11 = fmul(gc, mc) - fmul(gs, ms);
    let t31 = -fmul(gs, mc) - fmul(gc, ms);
    let t13 = fmul(gc, ms) + fmul(gs, mc);
    let t33 = fmul(gc, mc) - fmul(gs, ms);
    proof {
        lemma_prod_bound2(scene.planet_to_moon as int, t11 as int, 0x40_0000, 0x2_0000);
        lemma_prod_bound2(scene.planet_to_moon as int, t31 as int, 0x40_0000, 0x2_0000);
        lemma_prod_bound2(scene.star_to_planet as int, gc as int, 0x40_0000, 0x1_0000);
        lemma_prod_bound2(scene.star_to_planet as int, gs as int, 0x40_0000, 0x1_0000);
        lemma_tdiv_le(scene.planet_to_moon as int * t11 as int, SCALE as int, 0x80_0000);
        lemma_tdiv_le(scene.planet_to_moon as int * t31 as int, SCALE as int, 0x80_0000);
        lemma_tdiv_le(scene.star_to_planet as int * gc as int, SCALE as int, 0x40_0000);
        lemma_tdiv_le(scene.star_to_planet as int * gs as int, SCALE as int, 0x40_0000);
    }
    let cx = fmul(scene.planet_to_moon, t11) + fmul(scene.star_to_planet, gc);
    let cz = fmul(scene.planet_to_moon, t31) - fmul(scene.star_to_planet, gs);
    BodyGrid {
        radius: scene.moon_radius,
        axis_u: Vector3 { x: t11, y: 0, z: t31 },
        axis_v: Vector3 { x: t13, y: 0, z: t33 },
        center: Vector3 { x: cx, y: 0, z: cz },
        lat_steps: 30,
        lon_steps: 180,
        color: Color { r: 255, g: 255, b: 255 },
        inward: false,
    }
}

} // verus!
