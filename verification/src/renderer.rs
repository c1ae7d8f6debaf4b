//! Rendering: every grid sample of every body is projected and written into
//! the frame buffer in a fixed row-major order; the depth test, not the
//! traversal order, decides which point survives at each pixel.

use vstd::prelude::*;

use crate::camera::{draw_point_s, Camera};
use crate::framebuffer::{black, Color, FrameBuffer};
use crate::sampler::{
    moon_grid, moon_grid_s, planet_grid, planet_grid_s, sample_at, sample_dir_s, sample_normal_s,
    sample_pos_s, star_grid, star_grid_s, BodyGrid,
};
use crate::scene::{scene_at_s, OrbitalScene, MAX_TIME};
use crate::vector::zero3;

verus! {

/// The frame buffer contents after grid sample `k` (row-major: latitude row
/// `k / lon_steps`, column `k % lon_steps`) is drawn. A degenerate sample
/// with no surface direction is skipped.
pub open spec fn draw_sample_s(
    colors: Seq<Color>,
    depths: Seq<u64>,
    w: int,
    h: int,
    cam: Camera,
    g: BodyGrid,
    k: int,
) -> (Seq<Color>, Seq<u64>) {
    let i = k / (g.lon_steps as int);
    let j = k % (g.lon_steps as int);
    if sample_dir_s(g, i, j) == zero3() {
        (colors, depths)
    } else {
        draw_point_s(
            colors,
            depths,
            w,
            h,
            cam,
            sample_pos_s(g, i, j),
            sample_normal_s(g, i, j),
            g.color,
        )
    }
}

/// The frame buffer contents after the first `k` samples of one body's grid
/// are drawn in order.
pub open spec fn render_body_upto_s(
    colors: Seq<Color>,
    depths: Seq<u64>,
    w: int,
    h: int,
    cam: Camera,
    g: BodyGrid,
    k: int,
) -> (Seq<Color>, Seq<u64>)
    decreases k,
{
    if k <= 0 {
        (colors, depths)
    } else {
        let prev = render_body_upto_s(colors, depths, w, h, cam, g, k - 1);
        draw_sample_s(prev.0, prev.1, w, h, cam, g, k - 1)
    }
}

/// The frame buffer contents after the whole scene is drawn: the star, then
/// the planet, then the moon, each over its full grid.
pub open spec fn render_scene_s(
    colors: Seq<Color>,
    depths: Seq<u64>,
    w: int,
    h: int,
    cam: Camera,
    scene: OrbitalScene,
) -> (Seq<Color>, Seq<u64>) {
    let gs = star_grid_s(scene);
    let gp = planet_grid_s(scene);
    let gm = moon_grid_s(scene);
    let after_star = render_body_upto_s(colors, depths, w, h, cam, gs, gs.lat_steps * gs.lon_steps);
    let after_planet = render_body_upto_s(
        after_star.0,
        after_star.1,
        w,
        h,
        cam,
        gp,
        gp.lat_steps * gp.lon_steps,
    );
    render_body_upto_s(
        after_planet.0,
        after_planet.1,
        w,
        h,
        cam,
        gm,
        gm.lat_steps * gm.lon_steps,
    )
}

/// A row-major index inside the grid splits into a valid row and column.
proof fn lemma_grid_index(k: int, lat: int, lon: int)
    requires
        0 <= k,
        k < lat * lon,
        1 <= lat,
        1 <= lon,
    ensures
        0 <= k / lon < lat,
        0 <= k % lon < lon,
{
    assert(0 <= k / lon < lat && 0 <= k % lon < lon) by (nonlinear_arith)
        requires
            0 <= k,
            k < lat * lon,
            1 <= lat,
            1 <= lon,
    {
        vstd::arithmetic::div_mod::lemma_fundamental_div_mod(k, lon);
        if k / lon >= lat {
            vstd::arithmetic::div_mod::lemma_mul_mod_noop_general(k, lon, lon);
        }
    }
}

/// Draw every sample of one body's grid, in row-major order.
pub fn render_body(cam: &Camera, fb: &mut FrameBuffer, g: &BodyGrid)
    requires
        old(fb).wf(),
        cam.wf(),
        g.wf(),
    ensures
        final(fb).wf(),
        final(fb).width == old(fb).width,
        final(fb).height == old(fb).height,
        (final(fb).colors@, final(fb).depths@) == render_body_upto_s(
            old(fb).colors@,
            old(fb).depths@,
            old(fb).width as int,
            old(fb).height as int,
            *cam,
            *g,
            g.lat_steps * g.lon_steps,
        ),
{
    proof {
        assert(g.lat_steps * g.lon_steps <= 0x100_0000) by (nonlinear_arith)
            requires
                1 <= g.lat_steps <= 0x1000,
                1 <= g.lon_steps <= 0x1000,
        {
        }
    }
    let total: u32 = g.lat_steps * g.lon_steps;
    let mut k: u32 = 0;
    while k < total
        invariant
            cam.wf(),
            g.wf(),
            fb.wf(),
            total == g.lat_steps * g.lon_steps,
            k <= total,
            fb.width == old(fb).width,
            fb.height == old(fb).height,
            (fb.colors@, fb.depths@) == render_body_upto_s(
                old(fb).colors@,
                old(fb).depths@,
                old(fb).width as int,
                old(fb).height as int,
                *cam,
                *g,
                k as int,
            ),
        decreases total - k,
    {
        proof {
            lemma_grid_index(k as int, g.lat_steps as int, g.lon_steps as int);
        }
        let i: u32 = k / g.lon_steps;
        let j: u32 = k % g.lon_steps;
        let (p, nd) = sample_at(g, i, j);
        match nd {
            Option::Some(n) => {
                cam.draw_point(fb, &p, &n, g.color);
            },
            Option::None => {},
        }
        k = k + 1;
    }
}

/// Draw the whole scene: star, planet, moon.
pub fn render_scene(cam: &Camera, fb: &mut FrameBuffer, scene: &OrbitalScene)
    requires
        old(fb).wf(),
        cam.wf(),
        scene.wf(),
    ensures
        final(fb).wf(),
        final(fb).width == old(fb).width,
        final(fb).height == old(fb).height,
        (final(fb).colors@, final(fb).depths@) == render_scene_s(
            old(fb).colors@,
            old(fb).depths@,
            old(fb).width as int,
            old(fb).height as int,
            *cam,
            *scene,
        ),
{
    let gs = star_grid(scene);
    render_body(cam, fb, &gs);
    let gp = planet_grid(scene);
    render_body(cam, fb, &gp);
    let gm = moon_grid(scene);
    render_body(cam, fb, &gm);
}

/// One complete frame: derive the scene at raw time `t`, clear the buffer,
/// and draw all three bodies. Afterwards the buffer holds the finished grid
/// of colour triples, ready to be painted by the host.
pub fn render_frame(base: &OrbitalScene, cam: &Camera, t: i64, fb: &mut FrameBuffer)
    requires
        old(fb).wf(),
        cam.wf(),
        base.wf(),
        -MAX_TIME <= t <= MAX_TIME,
    ensures
        final(fb).wf(),
        final(fb).width == old(fb).width,
        final(fb).height == old(fb).height,
        (final(fb).colors@, final(fb).depths@) == render_scene_s(
            Seq::new((old(fb).width * old(fb).height) as nat, |i: int| black()),
            Seq::new((old(fb).width * old(fb).height) as nat, |i: int| 0u64),
            old(fb).width as int,
            old(fb).height as int,
            *cam,
            scene_at_s(*base, t as int),
        ),
{
    let scene = base.derive(t);
    fb.clear();
    proof {
        assert(fb.colors@ =~= Seq::new((old(fb).width * old(fb).height) as nat, |i: int| black()));
        assert(fb.depths@ =~= Seq::new((old(fb).width * old(fb).height) as nat, |i: int| 0u64));
        assert(scene == scene_at_s(*base, t as int));
    }
    render_scene(cam, fb, &scene);
}

} // verus!
