use starscape::camera::Camera;
use starscape::fixed::{PI_FIX, SCALE};
use starscape::framebuffer::FrameBuffer;
use starscape::renderer::render_frame;
use starscape::scene::OrbitalScene;

const S: i64 = SCALE;

#[test]
fn rendered_frame_shows_the_star_near_centre() {
    // camera at (0, -15, 30) facing the origin, t = 0
    let base = OrbitalScene::new(5 * S / 2, 2 * S, 66 * S / 100, 12 * S, 4 * S, 0, 0);
    let hfov = PI_FIX / 3;
    let vfov = PI_FIX / 3 * 30 / 90 * 22 / 10;
    let cam = Camera::new(0, -15 * S, 30 * S, hfov, vfov);
    let mut fb = FrameBuffer::new(90, 30);
    render_frame(&base, &cam, 0, &mut fb);

    // the star is always visible: at least one non-black pixel
    let mut lit = 0u32;
    // star pixels are yellow-ish: equal red and green, no blue
    let mut star_pixels = 0i64;
    let mut sum_x = 0i64;
    let mut sum_y = 0i64;
    for y in 0..30usize {
        for x in 0..90usize {
            let c = fb.color_at(x, y);
            if c.r != 0 || c.g != 0 || c.b != 0 {
                lit += 1;
            }
            if c.r > 0 && c.r == c.g && c.b == 0 {
                star_pixels += 1;
                sum_x += x as i64;
                sum_y += y as i64;
            }
        }
    }
    assert!(lit > 0, "frame is entirely black");
    assert!(star_pixels > 0, "no star pixels rendered");
    // the star sits at the origin on the gaze axis, so its painted pixels
    // must cluster near the geometric centre of the screen
    let cx = sum_x / star_pixels;
    let cy = sum_y / star_pixels;
    assert!((cx - 45).abs() <= 10, "star centroid x = {cx}");
    assert!((cy - 15).abs() <= 6, "star centroid y = {cy}");
}

#[test]
fn frame_is_reproducible() {
    // rendering is a pure function of scene, camera and time
    let base = OrbitalScene::new(5 * S / 2, 2 * S, 66 * S / 100, 12 * S, 4 * S, 0, 0);
    let cam = Camera::new(0, -15 * S, 30 * S, PI_FIX / 3, PI_FIX / 4);
    let mut fb1 = FrameBuffer::new(60, 24);
    let mut fb2 = FrameBuffer::new(60, 24);
    render_frame(&base, &cam, 360 * S, &mut fb1);
    render_frame(&base, &cam, 360 * S, &mut fb2);
    for y in 0..24usize {
        for x in 0..60usize {
            assert_eq!(fb1.color_at(x, y), fb2.color_at(x, y));
            assert_eq!(fb1.depth_at(x, y), fb2.depth_at(x, y));
        }
    }
}
