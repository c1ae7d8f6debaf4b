use starscape::fixed::SCALE;
use starscape::framebuffer::{Color, FrameBuffer};

const S: u64 = SCALE as u64;

const RED: Color = Color { r: 255, g: 0, b: 0 };

const GREEN: Color = Color { r: 0, g: 255, b: 0 };

#[test]
fn new_buffer_is_clear() {
    let fb = FrameBuffer::new(4, 3);
    assert_eq!(fb.width(), 4);
    assert_eq!(fb.height(), 3);
    for y in 0..3 {
        for x in 0..4 {
            assert_eq!(fb.color_at(x, y), Color { r: 0, g: 0, b: 0 });
            assert_eq!(fb.depth_at(x, y), 0);
        }
    }
}

#[test]
fn nearest_wins_far_write_rejected() {
    // write depth 5.0 then depth 10.0 to the same pixel: 5.0 stays
    let mut fb = FrameBuffer::new(8, 8);
    fb.write(2, 3, RED, 5 * S);
    fb.write(2, 3, GREEN, 10 * S);
    assert_eq!(fb.color_at(2, 3), RED);
    assert_eq!(fb.depth_at(2, 3), 5 * S);
}

#[test]
fn nearest_wins_later_nearer_overwrites() {
    // write depth 10.0 then depth 5.0: the later-but-nearer write wins
    let mut fb = FrameBuffer::new(8, 8);
    fb.write(2, 3, GREEN, 10 * S);
    fb.write(2, 3, RED, 5 * S);
    assert_eq!(fb.color_at(2, 3), RED);
    assert_eq!(fb.depth_at(2, 3), 5 * S);
}

#[test]
fn zero_depth_sentinel_means_unwritten() {
    // a cell holding the zero sentinel accepts any depth
    let mut fb = FrameBuffer::new(2, 2);
    fb.write(1, 1, GREEN, 1_000_000 * S);
    assert_eq!(fb.color_at(1, 1), GREEN);
}

#[test]
fn out_of_grid_write_is_dropped() {
    let mut fb = FrameBuffer::new(4, 3);
    fb.write(4, 0, RED, S);
    fb.write(0, 3, RED, S);
    fb.write(1000, 1000, RED, S);
    for y in 0..3 {
        for x in 0..4 {
            assert_eq!(fb.color_at(x, y), Color { r: 0, g: 0, b: 0 });
        }
    }
}

#[test]
fn clear_resets_every_cell() {
    let mut fb = FrameBuffer::new(5, 4);
    fb.write(0, 0, RED, 3 * S);
    fb.write(4, 3, GREEN, 7 * S);
    fb.clear();
    for y in 0..4 {
        for x in 0..5 {
            assert_eq!(fb.color_at(x, y), Color { r: 0, g: 0, b: 0 });
            assert_eq!(fb.depth_at(x, y), 0);
        }
    }
}
