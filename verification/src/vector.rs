//! 3D vectors over fixed-point scalars: dot and cross products, addition,
//! scaling, negation, magnitude and normalization.

use vstd::prelude::*;

use crate::fixed::{
    div_trunc, fdiv, is_sqrt, isqrt, lemma_tdiv_le, lemma_tdiv_rem, lemma_tdiv_sq_bounds,
    lemma_usqrt_exists, tdiv, usqrt, SCALE,
};
use vstd::math::abs;

verus! {

/// A 3D vector; each component is a fixed-point scalar in raw units
/// (1/`SCALE` of a world unit).
#[derive(Clone, Copy, PartialEq, Eq, Structural, Debug)]
pub struct Vector3 {
    pub x: i64,
    pub y: i64,
    pub z: i64,
}

/// The mathematical model of a vector: its raw components as unbounded
/// integers.
pub struct Vec3i {
    pub x: int,
    pub y: int,
    pub z: int,
}

impl View for Vector3 {
    type V = Vec3i;

    open spec fn view(&self) -> Vec3i {
        Vec3i { x: self.x as int, y: self.y as int, z: self.z as int }
    }
}

/// All components of `v` lie within `[-b, b]`.
pub open spec fn in_range(v: Vec3i, b: int) -> bool {
    &&& -b <= v.x <= b
    &&& -b <= v.y <= b
    &&& -b <= v.z <= b
}

/// Unscaled dot product of raw components. The fixed-point dot product is
/// this, rescaled down by `SCALE`.
pub open spec fn dot_num(a: Vec3i, b: Vec3i) -> int {
    a.x * b.x + a.y * b.y + a.z * b.z
}

/// Unscaled components of the cross product.
pub open spec fn cross_num_x(a: Vec3i, b: Vec3i) -> int {
    a.y * b.z - a.z * b.y
}

pub open spec fn cross_num_y(a: Vec3i, b: Vec3i) -> int {
    a.z * b.x - a.x * b.z
}

pub open spec fn cross_num_z(a: Vec3i, b: Vec3i) -> int {
    a.x * b.y - a.y * b.x
}

/// The fixed-point cross product: each unscaled component rescaled by SCALE.
pub open spec fn cross_s(a: Vec3i, b: Vec3i) -> Vec3i {
    Vec3i {
        x: tdiv(cross_num_x(a, b), SCALE as int),
        y: tdiv(cross_num_y(a, b), SCALE as int),
        z: tdiv(cross_num_z(a, b), SCALE as int),
    }
}

pub open spec fn add_s(a: Vec3i, b: Vec3i) -> Vec3i {
    Vec3i { x: a.x + b.x, y: a.y + b.y, z: a.z + b.z }
}

pub open spec fn neg_s(a: Vec3i) -> Vec3i {
    Vec3i { x: -a.x, y: -a.y, z: -a.z }
}

/// Scaling by a fixed-point factor.
pub open spec fn times_s(a: Vec3i, factor: int) -> Vec3i {
    Vec3i {
        x: tdiv(a.x * factor, SCALE as int),
        y: tdiv(a.y * factor, SCALE as int),
        z: tdiv(a.z * factor, SCALE as int),
    }
}

/// Sum of squared raw components.
pub open spec fn norm_sq(v: Vec3i) -> int {
    v.x * v.x + v.y * v.y + v.z * v.z
}

/// Raw magnitude: the floor square root of the sum of squared components.
/// Because the components carry one factor of `SCALE` each, the square root
/// of their squared sum is again in raw units.
pub open spec fn mag_s(v: Vec3i) -> int {
    usqrt(norm_sq(v))
}

/// Normalization: each component is `x * SCALE / mag`, truncated; defined
/// only for vectors with `norm_sq >= 1` (normalizing a zero vector is a
/// precondition violation).
pub open spec fn normalized_s(v: Vec3i) -> Vec3i {
    Vec3i {
        x: tdiv(v.x * SCALE, mag_s(v)),
        y: tdiv(v.y * SCALE, mag_s(v)),
        z: tdiv(v.z * SCALE, mag_s(v)),
    }
}

/// The zero vector's model.
pub open spec fn zero3() -> Vec3i {
    Vec3i { x: 0, y: 0, z: 0 }
}

/// Coarsening before normalization: a vector whose components all fit the
/// magnitude routine is kept; an oversized one (a near-degenerate gaze can
/// blow a projected vector up) has every component scaled down by `SCALE`,
/// which keeps its direction up to truncation.
pub open spec fn coarse_s(v: Vec3i) -> Vec3i {
    if in_range(v, 0x3fff_ffff) {
        v
    } else {
        Vec3i {
            x: tdiv(v.x, SCALE as int),
            y: tdiv(v.y, SCALE as int),
            z: tdiv(v.z, SCALE as int),
        }
    }
}

impl Vector3 {
    pub fn new(x: i64, y: i64, z: i64) -> (v: Vector3)
        ensures
            v@ == (Vec3i { x: x as int, y: y as int, z: z as int }),
    {
        Vector3 { x, y, z }
    }

    /// The zero vector.
    pub fn zero() -> (v: Vector3)
        ensures
            v@ == (Vec3i { x: 0int, y: 0int, z: 0int }),
    {
        Vector3 { x: 0, y: 0, z: 0 }
    }

    /// Fixed-point dot product.
    pub fn dot(&self, rhs: &Vector3) -> (r: i64)
        requires
            in_range(self@, 0x4000_0000),
            in_range(rhs@, 0x4000_0000),
        ensures
            r == tdiv(dot_num(self@, rhs@), SCALE as int),
    {
        proof {
            lemma_prod_bound(self.x as int, rhs.x as int, 0x4000_0000);
            lemma_prod_bound(self.y as int, rhs.y as int, 0x4000_0000);
            lemma_prod_bound(self.z as int, rhs.z as int, 0x4000_0000);
        }
        let s = self.x * rhs.x + self.y * rhs.y + self.z * rhs.z;
        div_trunc(s, SCALE)
    }

    /// Fixed-point cross product.
    pub fn cross(&self, rhs: &Vector3) -> (r: Vector3)
        requires
            in_range(self@, 0x4000_0000),
            in_range(rhs@, 0x4000_0000),
        ensures
            r@ == cross_s(self@, rhs@),
    {
        proof {
            lemma_prod_bound(self.y as int, rhs.z as int, 0x4000_0000);
            lemma_prod_bound(self.z as int, rhs.y as int, 0x4000_0000);
            lemma_prod_bound(self.z as int, rhs.x as int, 0x4000_0000);
            lemma_prod_bound(self.x as int, rhs.z as int, 0x4000_0000);
            lemma_prod_bound(self.x as int, rhs.y as int, 0x4000_0000);
            lemma_prod_bound(self.y as int, rhs.x as int, 0x4000_0000);
        }
        let cx = self.y * rhs.z - self.z * rhs.y;
        let cy = self.z * rhs.x - self.x * rhs.z;
        let cz = self.x * rhs.y - self.y * rhs.x;
        Vector3 { x: div_trunc(cx, SCALE), y: div_trunc(cy, SCALE), z: div_trunc(cz, SCALE) }
    }

    /// Component-wise sum.
    pub fn add(&self, rhs: &Vector3) -> (r: Vector3)
        requires
            in_range(self@, 0x1000_0000_0000_0000),
            in_range(rhs@, 0x1000_0000_0000_0000),
        ensures
            r@ == add_s(self@, rhs@),
    {
        Vector3 { x: self.x + rhs.x, y: self.y + rhs.y, z: self.z + rhs.z }
    }

    /// Scaling by a fixed-point factor.
    pub fn times(&self, factor: i64) -> (r: Vector3)
        requires
            in_range(self@, 0x2_0000),
            -0x1000_0000_0000 <= factor <= 0x1000_0000_0000,
        ensures
            r@ == times_s(self@, factor as int),
    {
        proof {
            lemma_prod_bound2(self.x as int, factor as int, 0x2_0000, 0x1000_0000_0000);
            lemma_prod_bound2(self.y as int, factor as int, 0x2_0000, 0x1000_0000_0000);
            lemma_prod_bound2(self.z as int, factor as int, 0x2_0000, 0x1000_0000_0000);
        }
        Vector3 {
            x: div_trunc(self.x * factor, SCALE),
            y: div_trunc(self.y * factor, SCALE),
            z: div_trunc(self.z * factor, SCALE),
        }
    }

    /// Component-wise negation (scaling by -1).
    pub fn negate(&self) -> (r: Vector3)
        requires
            in_range(self@, 0x7fff_ffff_ffff_ffff),
        ensures
            r@ == neg_s(self@),
    {
        Vector3 { x: -self.x, y: -self.y, z: -self.z }
    }

    /// Raw magnitude.
    pub fn mag(&self) -> (r: i64)
        requires
            in_range(self@, 0x4000_0000),
        ensures
            r == mag_s(self@),
            0 <= r <= 0x1_0000_0000,
            is_sqrt(norm_sq(self@), r as int),
    {
        proof {
            lemma_prod_bound(self.x as int, self.x as int, 0x4000_0000);
            lemma_prod_bound(self.y as int, self.y as int, 0x4000_0000);
            lemma_prod_bound(self.z as int, self.z as int, 0x4000_0000);
            assert(self.x as int * self.x as int >= 0) by (nonlinear_arith);
            assert(self.y as int * self.y as int >= 0) by (nonlinear_arith);
            assert(self.z as int * self.z as int >= 0) by (nonlinear_arith);
        }
        let s = self.x * self.x + self.y * self.y + self.z * self.z;
        let r = isqrt(s as u64);
        r as i64
    }

    /// Coarsening before normalization: see `coarse_s`.
    pub fn coarse(&self) -> (r: Vector3)
        requires
            in_range(self@, 0x4000_0000_0000),
        ensures
            r@ == coarse_s(self@),
            in_range(r@, 0x4000_0000),
    {
        if -0x3fff_ffff <= self.x && self.x <= 0x3fff_ffff && -0x3fff_ffff <= self.y && self.y
            <= 0x3fff_ffff && -0x3fff_ffff <= self.z && self.z <= 0x3fff_ffff {
            *self
        } else {
            proof {
                lemma_tdiv_le(self.x as int, SCALE as int, 0x4000_0000);
                lemma_tdiv_le(self.y as int, SCALE as int, 0x4000_0000);
                lemma_tdiv_le(self.z as int, SCALE as int, 0x4000_0000);
            }
            Vector3 {
                x: div_trunc(self.x, SCALE),
                y: div_trunc(self.y, SCALE),
                z: div_trunc(self.z, SCALE),
            }
        }
    }

    /// Normalization to a unit-scale vector. Normalizing a zero vector is a
    /// precondition violation, as the original design demands.
    pub fn normalized(&self) -> (r: Vector3)
        requires
            in_range(self@, 0x4000_0000),
            norm_sq(self@) >= 1,
        ensures
            r@ == normalized_s(self@),
            in_range(r@, SCALE as int),
            mag_s(self@) >= 1,
    {
        let m = self.mag();
        proof {
            if m == 0 {
                assert(norm_sq(self@) < 1);
            }
            lemma_component_le_mag(self@, m as int);
            lemma_tdiv_le(self.x as int * SCALE, m as int, SCALE as int);
            lemma_tdiv_le(self.y as int * SCALE, m as int, SCALE as int);
            lemma_tdiv_le(self.z as int * SCALE, m as int, SCALE as int);
        }
        Vector3 { x: fdiv(self.x, m), y: fdiv(self.y, m), z: fdiv(self.z, m) }
    }
}

/// Bound on the product of two scalars each within `[-b, b]`.
pub proof fn lemma_prod_bound(a: int, b: int, bd: int)
    requires
        0 <= bd,
        -bd <= a <= bd,
        -bd <= b <= bd,
    ensures
        -(bd * bd) <= a * b <= bd * bd,
{
    assert(-(bd * bd) <= a * b <= bd * bd) by (nonlinear_arith)
        requires
            0 <= bd,
            -bd <= a <= bd,
            -bd <= b <= bd,
    {
    }
}

/// Bound on the product of two scalars with separate bounds.
pub proof fn lemma_prod_bound2(a: int, b: int, ba: int, bb: int)
    requires
        0 <= ba,
        0 <= bb,
        -ba <= a <= ba,
        -bb <= b <= bb,
    ensures
        -(ba * bb) <= a * b <= ba * bb,
{
    assert(-(ba * bb) <= a * b <= ba * bb) by (nonlinear_arith)
        requires
            0 <= ba,
            0 <= bb,
            -ba <= a <= ba,
            -bb <= b <= bb,
    {
    }
}

/// Each component of a vector is bounded by the vector's magnitude: if the
/// magnitude is `m`, then `x * SCALE` lies within `m * SCALE`.
proof fn lemma_component_le_mag(v: Vec3i, m: int)
    requires
        is_sqrt(norm_sq(v), m),
    ensures
        -m <= v.x <= m,
        -m <= v.y <= m,
        -m <= v.z <= m,
        -(m * SCALE) <= v.x * SCALE <= m * SCALE,
        -(m * SCALE) <= v.y * SCALE <= m * SCALE,
        -(m * SCALE) <= v.z * SCALE <= m * SCALE,
{
    assert(-m <= v.x <= m && -m <= v.y <= m && -m <= v.z <= m) by (nonlinear_arith)
        requires
            0 <= m,
            v.x * v.x + v.y * v.y + v.z * v.z < (m + 1) * (m + 1),
    {
        assert(v.x * v.x >= 0 && v.y * v.y >= 0 && v.z * v.z >= 0);
        if v.x > m {
            assert(v.x * v.x >= (m + 1) * (m + 1));
        }
        if v.x < -m {
            assert(v.x * v.x >= (m + 1) * (m + 1));
        }
        if v.y > m {
            assert(v.y * v.y >= (m + 1) * (m + 1));
        }
        if v.y < -m {
            assert(v.y * v.y >= (m + 1) * (m + 1));
        }
        if v.z > m {
            assert(v.z * v.z >= (m + 1) * (m + 1));
        }
        if v.z < -m {
            assert(v.z * v.z >= (m + 1) * (m + 1));
        }
    }
    assert(-(m * SCALE) <= v.x * SCALE <= m * SCALE && -(m * SCALE) <= v.y * SCALE <= m * SCALE
        && -(m * SCALE) <= v.z * SCALE <= m * SCALE) by (nonlinear_arith)
        requires
            -m <= v.x <= m,
            -m <= v.y <= m,
            -m <= v.z <= m,
    {
    }
}

/// A vector with some nonzero component has a positive squared norm.
pub proof fn lemma_nonzero_norm(v: Vec3i)
    requires
        v.x != 0 || v.y != 0 || v.z != 0,
    ensures
        norm_sq(v) >= 1,
{
    assert(v.x * v.x + v.y * v.y + v.z * v.z >= 1) by (nonlinear_arith)
        requires
            v.x != 0 || v.y != 0 || v.z != 0,
    {
        assert(v.x * v.x >= 0 && v.y * v.y >= 0 && v.z * v.z >= 0);
        if v.x != 0 {
            assert(v.x * v.x >= 1);
        } else if v.y != 0 {
            assert(v.y * v.y >= 1);
        } else {
            assert(v.z * v.z >= 1);
        }
    }
}

/// The exact cross product is orthogonal to both of its factors: the
/// unscaled dot product of either factor with the unscaled cross product is
/// exactly zero. The executable `cross` rescales each component with
/// truncation, so the executable dot product of `v` with `cross(v, w)` is
/// only near zero; `lemma_cross_dot_small` bounds that error.
pub proof fn lemma_cross_orthogonal(a: Vec3i, b: Vec3i)
    ensures
        a.x * cross_num_x(a, b) + a.y * cross_num_y(a, b) + a.z * cross_num_z(a, b) == 0,
        b.x * cross_num_x(a, b) + b.y * cross_num_y(a, b) + b.z * cross_num_z(a, b) == 0,
{
    assert(a.x * (a.y * b.z - a.z * b.y) + a.y * (a.z * b.x - a.x * b.z) + a.z * (a.x * b.y - a.y
        * b.x) == 0) by (nonlinear_arith);
    assert(b.x * (a.y * b.z - a.z * b.y) + b.y * (a.z * b.x - a.x * b.z) + b.z * (a.x * b.y - a.y
        * b.x) == 0) by (nonlinear_arith);
}

/// The fixed-point cross product stays near-orthogonal to its first factor:
/// rescaling each component truncates by less than one raw unit, so the
/// unscaled dot product of `a` with the executable `cross(a, b)`, itself
/// scaled up by `SCALE`, is bounded by the truncation error alone. The same
/// bound holds against the second factor by antisymmetry of the numerators.
#[verifier::rlimit(100)]
pub proof fn lemma_cross_dot_small(a: Vec3i, b: Vec3i)
    ensures
        -((abs(a.x) + abs(a.y) + abs(a.z)) * (SCALE - 1)) <= SCALE * dot_num(a, cross_s(a, b)),
        SCALE * dot_num(a, cross_s(a, b)) <= (abs(a.x) + abs(a.y) + abs(a.z)) * (SCALE - 1),
{
    let s = SCALE as int;
    let cx = cross_num_x(a, b);
    let cy = cross_num_y(a, b);
    let cz = cross_num_z(a, b);
    let qx = tdiv(cx, s);
    let qy = tdiv(cy, s);
    let qz = tdiv(cz, s);
    lemma_cross_orthogonal(a, b);
    lemma_tdiv_rem(cx, s);
    lemma_tdiv_rem(cy, s);
    lemma_tdiv_rem(cz, s);
    let rx = cx - s * qx;
    let ry = cy - s * qy;
    let rz = cz - s * qz;
    assert(-((abs(a.x) + abs(a.y) + abs(a.z)) * (s - 1)) <= s * (a.x * qx + a.y * qy + a.z * qz)
        && s * (a.x * qx + a.y * qy + a.z * qz) <= (abs(a.x) + abs(a.y) + abs(a.z)) * (s - 1))
        by (nonlinear_arith)
        requires
            s == SCALE as int,
            a.x * cx + a.y * cy + a.z * cz == 0,
            rx == cx - s * qx,
            ry == cy - s * qy,
            rz == cz - s * qz,
            -(s - 1) <= rx <= s - 1,
            -(s - 1) <= ry <= s - 1,
            -(s - 1) <= rz <= s - 1,
            abs(a.x) == if a.x >= 0 { a.x } else { -a.x },
            abs(a.y) == if a.y >= 0 { a.y } else { -a.y },
            abs(a.z) == if a.z >= 0 { a.z } else { -a.z },
    {
        assert(s * (a.x * qx + a.y * qy + a.z * qz) == -(a.x * rx + a.y * ry + a.z * rz));
        assert(a.x * rx <= abs(a.x) * (s - 1) && -(abs(a.x) * (s - 1)) <= a.x * rx);
        assert(a.y * ry <= abs(a.y) * (s - 1) && -(abs(a.y) * (s - 1)) <= a.y * ry);
        assert(a.z * rz <= abs(a.z) * (s - 1) && -(abs(a.z) * (s - 1)) <= a.z * rz);
    }
}

/// Normalization yields a unit-length vector up to truncation: for any
/// vector of magnitude at least one world unit (`SCALE` raw), the magnitude
/// of its normalization is within four raw units below `SCALE` — a relative
/// error under 2^-14. (Vectors far shorter than one unit fall outside the
/// law: normalizing the raw vector (1, 1, 0) divides by the floor square
/// root 1 and yields a vector of magnitude about 1.41 * SCALE.)
pub proof fn lemma_normalized_unit(v: Vec3i)
    requires
        in_range(v, 0x4000_0000),
        mag_s(v) >= SCALE,
    ensures
        SCALE - 4 <= mag_s(normalized_s(v)) <= SCALE,
{
    let s = SCALE as int;
    let n = norm_sq(v);
    assert(v.x * v.x + v.y * v.y + v.z * v.z >= 0) by (nonlinear_arith);
    lemma_usqrt_exists(n);
    let m = usqrt(n);
    lemma_component_le_mag(v, m);
    let ux = v.x * s;
    let uy = v.y * s;
    let uz = v.z * s;
    let nx = tdiv(ux, m);
    let ny = tdiv(uy, m);
    let nz = tdiv(uz, m);
    lemma_tdiv_sq_bounds(ux, m);
    lemma_tdiv_sq_bounds(uy, m);
    lemma_tdiv_sq_bounds(uz, m);
    lemma_tdiv_le(ux, m, s);
    lemma_tdiv_le(uy, m, s);
    lemma_tdiv_le(uz, m, s);
    let t = nx * nx + ny * ny + nz * nz;
    // upper bound: m^2 t <= s^2 n <= s^2 (m^2 + 2m) <= m^2 (s^2 + 2s)
    assert(t <= s * s + 2 * s) by (nonlinear_arith)
        requires
            s == SCALE as int,
            s <= m,
            t == nx * nx + ny * ny + nz * nz,
            m * m * (nx * nx) <= ux * ux,
            m * m * (ny * ny) <= uy * uy,
            m * m * (nz * nz) <= uz * uz,
            ux == v.x * s,
            uy == v.y * s,
            uz == v.z * s,
            n == v.x * v.x + v.y * v.y + v.z * v.z,
            n < (m + 1) * (m + 1),
    {
        assert(ux * ux + uy * uy + uz * uz == s * s * n);
        assert(m * m * t <= s * s * n);
        assert(n <= m * m + 2 * m);
        assert(s * s * n <= s * s * (m * m + 2 * m));
        assert(s * s * (2 * m) <= (2 * s) * (m * m));
        assert(m * m * t <= m * m * (s * s + 2 * s));
    }
    // lower bound: s^2 m^2 <= s^2 n < m^2 (t + 2(|nx|+|ny|+|nz|) + 3)
    assert(t >= s * s - 6 * s - 2) by (nonlinear_arith)
        requires
            s == SCALE as int,
            s <= m,
            t == nx * nx + ny * ny + nz * nz,
            ux * ux < m * m * ((abs(nx) + 1) * (abs(nx) + 1)),
            uy * uy < m * m * ((abs(ny) + 1) * (abs(ny) + 1)),
            uz * uz < m * m * ((abs(nz) + 1) * (abs(nz) + 1)),
            abs(nx) <= s,
            abs(ny) <= s,
            abs(nz) <= s,
            abs(nx) == if nx >= 0 { nx } else { -nx },
            abs(ny) == if ny >= 0 { ny } else { -ny },
            abs(nz) == if nz >= 0 { nz } else { -nz },
            ux == v.x * s,
            uy == v.y * s,
            uz == v.z * s,
            n == v.x * v.x + v.y * v.y + v.z * v.z,
            m * m <= n,
    {
        assert(s * s * n == ux * ux + uy * uy + uz * uz);
        assert(abs(nx) * abs(nx) == nx * nx);
        assert(abs(ny) * abs(ny) == ny * ny);
        assert(abs(nz) * abs(nz) == nz * nz);
        assert((abs(nx) + 1) * (abs(nx) + 1) == nx * nx + 2 * abs(nx) + 1);
        assert((abs(ny) + 1) * (abs(ny) + 1) == ny * ny + 2 * abs(ny) + 1);
        assert((abs(nz) + 1) * (abs(nz) + 1) == nz * nz + 2 * abs(nz) + 1);
        assert(s * s * n < m * m * (t + 2 * (abs(nx) + abs(ny) + abs(nz)) + 3));
        assert(s * s * (m * m) <= s * s * n);
        assert(s * s < t + 2 * (abs(nx) + abs(ny) + abs(nz)) + 3);
        assert(2 * (abs(nx) + abs(ny) + abs(nz)) <= 6 * s);
    }
    assert(t >= 0) by (nonlinear_arith)
        requires
            t == nx * nx + ny * ny + nz * nz,
    {
    }
    lemma_usqrt_exists(t);
    let w = usqrt(t);
    assert(norm_sq(normalized_s(v)) == t);
    assert(s - 4 <= w <= s) by (nonlinear_arith)
        requires
            s == SCALE as int,
            w * w <= t,
            t < (w + 1) * (w + 1),
            0 <= w,
            s * s - 6 * s - 2 <= t <= s * s + 2 * s,
    {
        if w > s {
            assert((s + 1) * (s + 1) <= w * w);
        }
        if w < s - 4 {
            assert((w + 1) * (w + 1) <= (s - 4) * (s - 4));
        }
    }
}

} // verus!
