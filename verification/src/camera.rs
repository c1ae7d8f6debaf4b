//! The camera: angular perspective projection of world points into pixel
//! coordinates, back-face and frustum culling, Lambertian shading against
//! the star at the origin, and depth-gated writes into the frame buffer.

use vstd::prelude::*;

use crate::fixed::{
    acos_fix, acos_s, div_trunc, fdiv, fmul, fmul_s, lemma_tdiv_le, lemma_tdiv_shrinks, tdiv,
    usqrt, SCALE, TWO_PI_FIX,
};
use crate::framebuffer::{write_s, Color, FrameBuffer};
use crate::vector::{
    add_s, coarse_s, dot_num, in_range, lemma_nonzero_norm, lemma_prod_bound, lemma_prod_bound2,
    neg_s, norm_sq, normalized_s, times_s, zero3, Vec3i, Vector3,
};

verus! {

/// Largest raw coordinate allowed for the camera position (256 world units).
pub const CAM_MAX: i64 = 0x100_0000;

/// Largest raw coordinate allowed for a sampled world point.
pub const POINT_MAX: i64 = 0x280_0000;

/// Largest raw component allowed for a surface normal (unit-scale vectors
/// with headroom).
pub const NORMAL_MAX: i64 = 0x2_0000;

/// A camera with a position and two angular fields of view (raw radians).
/// Orientation is implicit: the camera always looks at the world origin, so
/// the gaze direction is derived from the position and never stored.
#[derive(Clone, Copy, PartialEq, Eq, Structural, Debug)]
pub struct Camera {
    pub position: Vector3,
    pub horizontal_fov: i64,
    pub vertical_fov: i64,
}

/// The gaze direction: from the camera position toward the world origin.
pub open spec fn gaze_s(cam: Camera) -> Vec3i {
    normalized_s(neg_s(cam.position@))
}

/// Camera-relative position of a world point.
pub open spec fn rel_s(cam: Camera, p: Vec3i) -> Vec3i {
    add_s(p, neg_s(cam.position@))
}

/// Back-face factor: fixed-point dot of a surface normal with the inverted
/// gaze. Non-positive means the surface faces away from the camera.
pub open spec fn facing_s(cam: Camera, n: Vec3i) -> int {
    tdiv(dot_num(n, neg_s(gaze_s(cam))), SCALE as int)
}

/// Forward component: fixed-point dot of the relative position with the
/// gaze. Non-positive means the point is beside or behind the camera.
pub open spec fn forward_s(cam: Camera, p: Vec3i) -> int {
    tdiv(dot_num(rel_s(cam, p), gaze_s(cam)), SCALE as int)
}

/// Denominator of the vertical decomposition: squared x/z extent of the gaze.
pub open spec fn x2z2_s(d: Vec3i) -> int {
    fmul_s(d.x, d.x) + fmul_s(d.z, d.z)
}

/// Denominator of the horizontal decomposition.
pub open spec fn y2z2_s(d: Vec3i) -> int {
    fmul_s(d.y, d.y) + fmul_s(d.z, d.z)
}

/// Vertical decomposition of a camera-relative point: its out-of-plane
/// component over the gaze's x/z plane, and the gaze coefficient of its
/// in-plane projection.
pub open spec fn y_decomp_s(d: Vec3i, rel: Vec3i) -> (int, int) {
    let den = x2z2_s(d);
    let qy1 = tdiv(-fmul_s(d.x, d.y) * SCALE, den);
    let qy2 = tdiv(-fmul_s(d.y, d.z) * SCALE, den);
    let qz1 = tdiv(d.x * SCALE, den);
    let qz2 = tdiv(d.z * SCALE, den);
    (
        fmul_s(rel.x, qy1) + rel.y + fmul_s(rel.z, qy2),
        fmul_s(rel.x, qz1) + fmul_s(rel.z, qz2),
    )
}

/// Horizontal decomposition, symmetric to `y_decomp_s` over the gaze's y/z
/// plane.
pub open spec fn x_decomp_s(d: Vec3i, rel: Vec3i) -> (int, int) {
    let den = y2z2_s(d);
    let qx1 = tdiv(-fmul_s(d.x, d.y) * SCALE, den);
    let qx2 = tdiv(-fmul_s(d.x, d.z) * SCALE, den);
    let qz1 = tdiv(d.y * SCALE, den);
    let qz2 = tdiv(d.z * SCALE, den);
    (
        rel.x + fmul_s(rel.y, qx1) + fmul_s(rel.z, qx2),
        fmul_s(rel.y, qz1) + fmul_s(rel.z, qz2),
    )
}

/// The coarsened vector whose angle to the gaze is the vertical deviation.
pub open spec fn proj_y_s(d: Vec3i, rel: Vec3i) -> Vec3i {
    let (yv, zv) = y_decomp_s(d, rel);
    coarse_s(add_s(Vec3i { x: 0, y: yv, z: 0 }, times_s(d, zv)))
}

/// The coarsened vector whose angle to the gaze is the horizontal deviation.
pub open spec fn proj_x_s(d: Vec3i, rel: Vec3i) -> Vec3i {
    let (xv, zv) = x_decomp_s(d, rel);
    coarse_s(add_s(Vec3i { x: xv, y: 0, z: 0 }, times_s(d, zv)))
}

/// The angular deviation of a point from the gaze on the vertical axis.
pub open spec fn angle_y_of(cam: Camera, p: Vec3i) -> int {
    let d = gaze_s(cam);
    acos_s(tdiv(dot_num(normalized_s(proj_y_s(d, rel_s(cam, p))), d), SCALE as int))
}

/// The angular deviation of a point from the gaze on the horizontal axis.
pub open spec fn angle_x_of(cam: Camera, p: Vec3i) -> int {
    let d = gaze_s(cam);
    acos_s(tdiv(dot_num(normalized_s(proj_x_s(d, rel_s(cam, p))), d), SCALE as int))
}

/// Angular pixel mapping: the deviation maps linearly from `[0, fov/2]` to
/// `[0, middle]` pixels, signed by the side of the gaze the point lies on.
pub open spec fn pix_coord_s(middle: int, angle: int, fov: int, neg: bool) -> int {
    let off = tdiv(angle * 2 * middle, fov);
    if neg {
        middle - off
    } else {
        middle + off
    }
}

/// Lambertian shading value in `[31, 255]`: the light source is the star at
/// the world origin, the intensity the clamped fixed-point dot of the normal
/// with the direction toward it, and the value has an ambient floor of 31.
pub open spec fn shade_val_s(n: Vec3i, p: Vec3i) -> int {
    let i0 = tdiv(dot_num(n, normalized_s(neg_s(p))), SCALE as int);
    let i1 = if i0 < 0 {
        0
    } else {
        i0
    };
    let v = 31 + tdiv(i1 * 224, SCALE as int);
    if v > 255 {
        255
    } else {
        v
    }
}

/// One colour channel scaled by a shading value out of 255.
pub open spec fn chan_s(c: int, v: int) -> int {
    (c * v) / 255
}

/// A base colour scaled by a shading value.
pub open spec fn shade_color_s(base: Color, v: int) -> Color {
    Color { r: chan_s(base.r as int, v) as u8, g: chan_s(base.g as int, v) as u8, b: chan_s(base.b as int, v) as u8 }
}

/// Where (and whether) a world point lands on the screen: `None` when the
/// point is culled (back-facing, beside or behind the camera, outside the
/// frustum on either axis, or geometrically degenerate), otherwise the pixel
/// coordinates and the raw camera distance used for depth testing.
pub open spec fn project_s(cam: Camera, w: int, h: int, p: Vec3i, n: Vec3i) -> Option<
    (int, int, int),
> {
    let d = gaze_s(cam);
    let rel = rel_s(cam, p);
    if facing_s(cam, n) <= 0 || forward_s(cam, p) <= 0 || x2z2_s(d) <= 0 || y2z2_s(d) <= 0 || p
        == zero3() {
        Option::None
    } else if proj_y_s(d, rel) == zero3() || proj_x_s(d, rel) == zero3() {
        Option::None
    } else if angle_y_of(cam, p) > tdiv(cam.vertical_fov as int, 2) || angle_x_of(cam, p) > tdiv(
        cam.horizontal_fov as int,
        2,
    ) {
        Option::None
    } else {
        let py = pix_coord_s(h / 2, angle_y_of(cam, p), cam.vertical_fov as int, y_decomp_s(d, rel).0 < 0);
        let px = pix_coord_s(
            w / 2,
            angle_x_of(cam, p),
            cam.horizontal_fov as int,
            x_decomp_s(d, rel).0 < 0,
        );
        Option::Some((px, py, usqrt(norm_sq(rel))))
    }
}

/// The frame buffer contents after one point is drawn: unchanged when the
/// point is culled, otherwise one depth-gated write of the shaded colour.
pub open spec fn draw_point_s(
    colors: Seq<Color>,
    depths: Seq<u64>,
    w: int,
    h: int,
    cam: Camera,
    p: Vec3i,
    n: Vec3i,
    base: Color,
) -> (Seq<Color>, Seq<u64>) {
    match project_s(cam, w, h, p, n) {
        Option::None => (colors, depths),
        Option::Some((px, py, depth)) => write_s(
            colors,
            depths,
            w,
            h,
            px,
            py,
            shade_color_s(base, shade_val_s(n, p)),
            depth as u64,
        ),
    }
}

impl Camera {
    /// The camera is within the world bounds, away from the origin it gazes
    /// at, and its fields of view are positive angles of at most a full turn.
    pub open spec fn wf(self) -> bool {
        &&& in_range(self.position@, CAM_MAX as int)
        &&& norm_sq(self.position@) >= 1
        &&& 1 <= self.horizontal_fov <= TWO_PI_FIX
        &&& 1 <= self.vertical_fov <= TWO_PI_FIX
    }

    pub fn new(x: i64, y: i64, z: i64, horizontal_fov: i64, vertical_fov: i64) -> (cam: Camera)
        ensures
            cam.position@ == (Vec3i { x: x as int, y: y as int, z: z as int }),
            cam.horizontal_fov == horizontal_fov,
            cam.vertical_fov == vertical_fov,
    {
        Camera { position: Vector3 { x, y, z }, horizontal_fov, vertical_fov }
    }

    /// The gaze direction, recomputed from the position on every call.
    pub fn direction(&self) -> (d: Vector3)
        requires
            in_range(self.position@, CAM_MAX as int),
            norm_sq(self.position@) >= 1,
        ensures
            d@ == gaze_s(*self),
            in_range(d@, SCALE as int),
    {
        let neg = self.position.negate();
        proof {
            assert(norm_sq(neg@) == norm_sq(self.position@)) by (nonlinear_arith)
                requires
                    neg@ == neg_s(self.position@),
            {
            }
        }
        neg.normalized()
    }
}

/// One colour channel scaled by a shading value out of 255.
fn scale_channel(c: u8, v: u8) -> (r: u8)
    ensures
        r as int == chan_s(c as int, v as int),
{
    proof {
        assert((c as u32) * (v as u32) <= 65025 && (c as int) * (v as int) == (c as u32) * (
        v as u32)) by (nonlinear_arith)
            requires
                c <= 255,
                v <= 255,
        {
        }
    }
    (((c as u32) * (v as u32)) / 255) as u8
}

/// A unit-range numerator divided by a positive denominator stays within the
/// square of the unit scale.
proof fn lemma_q_bound(a: int, den: int)
    requires
        -0x1_0000 <= a <= 0x1_0000,
        1 <= den,
    ensures
        -0x1_0000_0000 <= tdiv(a * (SCALE as int), den) <= 0x1_0000_0000,
        -0x2000_0000_0000_0000 <= a * (SCALE as int) <= 0x2000_0000_0000_0000,
{
    assert(-(0x1_0000_0000 * den) <= a * (SCALE as int) <= 0x1_0000_0000 * den
        && -0x2000_0000_0000_0000 <= a * (SCALE as int) <= 0x2000_0000_0000_0000)
        by (nonlinear_arith)
        requires
            -0x1_0000 <= a <= 0x1_0000,
            1 <= den,
    {
    }
    lemma_tdiv_le(a * (SCALE as int), den, 0x1_0000_0000);
}

/// A world-range coordinate times a quotient from `lemma_q_bound`, rescaled.
proof fn lemma_term_bound(r: int, q: int)
    requires
        -0x400_0000 <= r <= 0x400_0000,
        -0x1_0000_0000 <= q <= 0x1_0000_0000,
    ensures
        -0x2000_0000_0000_0000 <= r * q <= 0x2000_0000_0000_0000,
        -0x400_0000_0000 <= tdiv(r * q, SCALE as int) <= 0x400_0000_0000,
{
    lemma_prod_bound2(r, q, 0x400_0000, 0x1_0000_0000);
    lemma_tdiv_le(r * q, SCALE as int, 0x400_0000_0000);
}

/// Bound on the gaze direction scaled by a bounded factor.
proof fn lemma_gaze_times_bound(d: Vec3i, f: int)
    requires
        in_range(d, 0x1_0000),
        -0x1000_0000_0000 <= f <= 0x1000_0000_0000,
    ensures
        in_range(times_s(d, f), 0x1000_0000_0000),
{
    lemma_prod_bound2(d.x, f, 0x1_0000, 0x1000_0000_0000);
    lemma_prod_bound2(d.y, f, 0x1_0000, 0x1000_0000_0000);
    lemma_prod_bound2(d.z, f, 0x1_0000, 0x1000_0000_0000);
    lemma_tdiv_le(d.x * f, SCALE as int, 0x1000_0000_0000);
    lemma_tdiv_le(d.y * f, SCALE as int, 0x1000_0000_0000);
    lemma_tdiv_le(d.z * f, SCALE as int, 0x1000_0000_0000);
}

/// A deviation within half the field of view maps to at most `mid` pixels.
proof fn lemma_off_bound(angle: int, fov: int, mid: int)
    requires
        0 <= angle,
        angle <= tdiv(fov, 2),
        1 <= fov <= TWO_PI_FIX,
        0 <= mid <= 0x8000,
    ensures
        0 <= tdiv(angle * 2 * mid, fov) <= mid,
        0 <= angle * 2 * mid <= 0x400_0000_0000,
{
    assert(2 * angle <= fov);
    assert(0 <= angle * 2 * mid <= mid * fov && angle * 2 * mid <= 0x400_0000_0000)
        by (nonlinear_arith)
        requires
            0 <= angle,
            2 * angle <= fov,
            0 <= mid <= 0x8000,
            fov <= TWO_PI_FIX,
    {
        assert(angle * 2 <= fov);
        assert(angle * 2 * mid <= fov * mid);
    }
    lemma_tdiv_le(angle * 2 * mid, fov, mid);
    lemma_tdiv_shrinks(angle * 2 * mid, fov);
}

impl Camera {
    /// Project one sampled surface point and write it into the frame buffer
    /// through the depth test. The point is dropped without a write when it
    /// is back-facing, beside or behind the camera, outside the frustum on
    /// either axis, or geometrically degenerate (a gaze along the vertical
    /// axis, or a point at the camera or at the origin).
    pub fn draw_point(&self, fb: &mut FrameBuffer, p: &Vector3, n: &Vector3, base: Color)
        requires
            old(fb).wf(),
            self.wf(),
            in_range(p@, POINT_MAX as int),
            in_range(n@, NORMAL_MAX as int),
        ensures
            final(fb).wf(),
            final(fb).width == old(fb).width,
            final(fb).height == old(fb).height,
            (final(fb).colors@, final(fb).depths@) == draw_point_s(
                old(fb).colors@,
                old(fb).depths@,
                old(fb).width as int,
                old(fb).height as int,
                *self,
                p@,
                n@,
                base,
            ),
            facing_s(*self, n@) <= 0 ==> final(fb).colors@ == old(fb).colors@
                && final(fb).depths@ == old(fb).depths@,
            forward_s(*self, p@) <= 0 ==> final(fb).colors@ == old(fb).colors@
                && final(fb).depths@ == old(fb).depths@,
            angle_y_of(*self, p@) > tdiv(self.vertical_fov as int, 2)
                ==> final(fb).colors@ == old(fb).colors@
                && final(fb).depths@ == old(fb).depths@,
            angle_x_of(*self, p@) > tdiv(self.horizontal_fov as int, 2)
                ==> final(fb).colors@ == old(fb).colors@
                && final(fb).depths@ == old(fb).depths@,
    {
        let d = self.direction();
        let dneg = d.negate();
        let nf = n.dot(&dneg);
        if nf <= 0 {
            return ;
        }
        let posneg = self.position.negate();
        let rel = p.add(&posneg);
        let fwd = rel.dot(&d);
        if fwd <= 0 {
            return ;
        }
        proof {
            lemma_prod_bound(d.x as int, d.x as int, 0x1_0000);
            lemma_prod_bound(d.y as int, d.y as int, 0x1_0000);
            lemma_prod_bound(d.z as int, d.z as int, 0x1_0000);
            lemma_prod_bound(d.x as int, d.y as int, 0x1_0000);
            lemma_prod_bound(d.y as int, d.z as int, 0x1_0000);
            lemma_prod_bound(d.x as int, d.z as int, 0x1_0000);
            lemma_tdiv_le(d.x as int * d.x as int, SCALE as int, 0x1_0000);
            lemma_tdiv_le(d.y as int * d.y as int, SCALE as int, 0x1_0000);
            lemma_tdiv_le(d.z as int * d.z as int, SCALE as int, 0x1_0000);
            lemma_tdiv_le(d.x as int * d.y as int, SCALE as int, 0x1_0000);
            lemma_tdiv_le(d.y as int * d.z as int, SCALE as int, 0x1_0000);
            lemma_tdiv_le(d.x as int * d.z as int, SCALE as int, 0x1_0000);
        }
        let x2z2 = fmul(d.x, d.x) + fmul(d.z, d.z);
        if x2z2 <= 0 {
            return ;
        }
        let y2z2 = fmul(d.y, d.y) + fmul(d.z, d.z);
        if y2z2 <= 0 {
            return ;
        }
        if p.x == 0 && p.y == 0 && p.z == 0 {
            return ;
        }
        let dxy = fmul(d.x, d.y);
        let dyz = fmul(d.y, d.z);
        let dxz = fmul(d.x, d.z);

        // vertical axis
        proof {
            lemma_q_bound(-(dxy as int), x2z2 as int);
            lemma_q_bound(-(dyz as int), x2z2 as int);
            lemma_q_bound(d.x as int, x2z2 as int);
            lemma_q_bound(d.z as int, x2z2 as int);
        }
        let qy1 = fdiv(-dxy, x2z2);
        let qy2 = fdiv(-dyz, x2z2);
        let qz1 = fdiv(d.x, x2z2);
        let qz2 = fdiv(d.z, x2z2);
        proof {
            lemma_term_bound(rel.x as int, qy1 as int);
            lemma_term_bound(rel.z as int, qy2 as int);
            lemma_term_bound(rel.x as int, qz1 as int);
            lemma_term_bound(rel.z as int, qz2 as int);
        }
        let yv = fmul(rel.x, qy1) + rel.y + fmul(rel.z, qy2);
        let zv = fmul(rel.x, qz1) + fmul(rel.z, qz2);
        proof {
            lemma_gaze_times_bound(d@, zv as int);
        }
        let gz = d.times(zv);
        let proj_y = Vector3::new(0, yv, 0).add(&gz).coarse();
        proof {
            assert(yv as int == y_decomp_s(d@, rel@).0);
            assert(zv as int == y_decomp_s(d@, rel@).1);
            assert(proj_y@ == proj_y_s(d@, rel@));
        }
        if proj_y.x == 0 && proj_y.y == 0 && proj_y.z == 0 {
            return ;
        }
        proof {
            lemma_nonzero_norm(proj_y@);
        }
        let uy = proj_y.normalized();
        let cy = uy.dot(&d);
        let ay = acos_fix(cy);
        proof {
            assert(ay as int == angle_y_of(*self, p@));
        }
        let half_y = div_trunc(self.vertical_fov, 2);
        if ay > half_y {
            return ;
        }
        // horizontal axis
        proof {
            lemma_q_bound(-(dxy as int), y2z2 as int);
            lemma_q_bound(-(dxz as int), y2z2 as int);
            lemma_q_bound(d.y as int, y2z2 as int);
            lemma_q_bound(d.z as int, y2z2 as int);
        }
        let qx1 = fdiv(-dxy, y2z2);
        let qx2 = fdiv(-dxz, y2z2);
        let qw1 = fdiv(d.y, y2z2);
        let qw2 = fdiv(d.z, y2z2);
        proof {
            lemma_term_bound(rel.y as int, qx1 as int);
            lemma_term_bound(rel.z as int, qx2 as int);
            lemma_term_bound(rel.y as int, qw1 as int);
            lemma_term_bound(rel.z as int, qw2 as int);
        }
        let xv = rel.x + fmul(rel.y, qx1) + fmul(rel.z, qx2);
        let zh = fmul(rel.y, qw1) + fmul(rel.z, qw2);
        proof {
            lemma_gaze_times_bound(d@, zh as int);
        }
        let gzx = d.times(zh);
        let proj_x = Vector3::new(xv, 0, 0).add(&gzx).coarse();
        proof {
            assert(xv as int == x_decomp_s(d@, rel@).0);
            assert(zh as int == x_decomp_s(d@, rel@).1);
            assert(proj_x@ == proj_x_s(d@, rel@));
        }
        if proj_x.x == 0 && proj_x.y == 0 && proj_x.z == 0 {
            return ;
        }
        proof {
            lemma_nonzero_norm(proj_x@);
        }
        let ux = proj_x.normalized();
        let cx = ux.dot(&d);
        let ax = acos_fix(cx);
        proof {
            assert(ax as int == angle_x_of(*self, p@));
        }
        let half_x = div_trunc(self.horizontal_fov, 2);
        if ax > half_x {
            return ;
        }
        // pixel mapping
        let mid_y = (fb.height() / 2) as i64;
        proof {
            lemma_off_bound(ay as int, self.vertical_fov as int, mid_y as int);
        }
        let off_y = div_trunc(ay * 2 * mid_y, self.vertical_fov);
        let py = if yv < 0 {
            mid_y - off_y
        } else {
            mid_y + off_y
        };
        let mid_x = (fb.width() / 2) as i64;
        proof {
            lemma_off_bound(ax as int, self.horizontal_fov as int, mid_x as int);
        }
        let off_x = div_trunc(ax * 2 * mid_x, self.horizontal_fov);
        let px = if xv < 0 {
            mid_x - off_x
        } else {
            mid_x + off_x
        };
        // depth and shading
        let depth = rel.mag();
        let pneg = p.negate();
        proof {
            lemma_nonzero_norm(pneg@);
        }
        let l = pneg.normalized();
        proof {
            lemma_prod_bound2(n.x as int, l.x as int, 0x2_0000, 0x1_0000);
            lemma_prod_bound2(n.y as int, l.y as int, 0x2_0000, 0x1_0000);
            lemma_prod_bound2(n.z as int, l.z as int, 0x2_0000, 0x1_0000);
            lemma_tdiv_le(dot_num(n@, l@), SCALE as int, 0x6_0000);
        }
        let i0 = n.dot(&l);
        let iv = if i0 < 0 {
            0
        } else {
            i0
        };
        proof {
            lemma_tdiv_shrinks(iv as int * 224, SCALE as int);
        }
        let vraw = 31 + div_trunc(iv * 224, SCALE);
        let val: u8 = if vraw > 255 {
            255
        } else {
            vraw as u8
        };
        let shaded = Color {
            r: scale_channel(base.r, val),
            g: scale_channel(base.g, val),
            b: scale_channel(base.b, val),
        };
        proof {
            assert(val as int == shade_val_s(n@, p@));
            assert(shaded == shade_color_s(base, val as int));
            assert(project_s(*self, old(fb).width as int, old(fb).height as int, p@, n@)
                == Option::Some((px as int, py as int, depth as int)));
        }
        fb.write(px as usize, py as usize, shaded, depth as u64);
    }
}

} // verus!
