use starscape::camera::Camera;
use starscape::fixed::{PI_FIX, SCALE};
use starscape::framebuffer::{Color, FrameBuffer};
use starscape::vector::Vector3;

const S: i64 = SCALE;

const WHITE: Color = Color { r: 255, g: 255, b: 255 };

const BLACK: Color = Color { r: 0, g: 0, b: 0 };

fn all_black(fb: &FrameBuffer) -> bool {
    let mut ok = true;
    for y in 0..fb.height() {
        for x in 0..fb.width() {
            if fb.color_at(x, y) != BLACK {
                ok = false;
            }
        }
    }
    ok
}

#[test]
fn direction_points_at_origin() {
    let cam = Camera::new(0, 0, 30 * S, PI_FIX / 3, PI_FIX / 3);
    let d = cam.direction();
    assert_eq!((d.x, d.y, d.z), (0, 0, -S));
}

#[test]
fn point_behind_camera_is_culled() {
    // camera at z = 30 looks toward -z; a point at z = 40 is behind it
    let cam = Camera::new(0, 0, 30 * S, PI_FIX / 3, PI_FIX / 3);
    let mut fb = FrameBuffer::new(90, 30);
    let p = Vector3::new(0, 0, 40 * S);
    let n = Vector3::new(0, 0, S);  // passes the back-face test
    cam.draw_point(&mut fb, &p, &n, WHITE);
    assert!(all_black(&fb));
}

#[test]
fn back_facing_point_is_culled() {
    let cam = Camera::new(0, 0, 30 * S, PI_FIX / 3, PI_FIX / 3);
    let mut fb = FrameBuffer::new(90, 30);
    let p = Vector3::new(0, 0, 10 * S);
    let n = Vector3::new(0, 0, -S);  // faces away from the camera
    cam.draw_point(&mut fb, &p, &n, WHITE);
    assert!(all_black(&fb));
}

#[test]
fn point_outside_fov_is_culled() {
    // fov/2 is 30 degrees; a point 45 degrees off the gaze must be culled
    // even though its raw pixel coordinate would land inside the buffer
    let cam = Camera::new(0, 0, 30 * S, PI_FIX / 3, PI_FIX / 3);
    let mut fb = FrameBuffer::new(90, 30);
    let p = Vector3::new(30 * S, 0, 0);
    let n = Vector3::new(0, 0, S);
    cam.draw_point(&mut fb, &p, &n, WHITE);
    assert!(all_black(&fb));
}

#[test]
fn point_on_gaze_hits_screen_centre() {
    let cam = Camera::new(0, 0, 30 * S, PI_FIX / 3, PI_FIX / 3);
    let mut fb = FrameBuffer::new(90, 30);
    let p = Vector3::new(0, 0, 10 * S);
    let n = Vector3::new(0, 0, S);
    cam.draw_point(&mut fb, &p, &n, WHITE);
    let c = fb.color_at(45, 15);
    assert!(c != BLACK);
    // depth is the camera distance, 20 world units
    let d = fb.depth_at(45, 15);
    assert_eq!(d, (20 * S) as u64);
}
