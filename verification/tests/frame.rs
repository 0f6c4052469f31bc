use instantmenu::color::Color;
use instantmenu::frame::{blit_frame, reusable_for, SlotRing};

#[test]
fn without_a_border_the_canvas_is_the_frame() {
    let canvas: Vec<u8> = (0..16).collect();
    let mut frame = vec![0u8; 16];
    blit_frame(&mut frame, &canvas, 2, 2, 0, Color::hex(0));
    assert_eq!(frame, canvas);
}

#[test]
fn a_border_ring_surrounds_the_canvas() {
    // A 1x1 canvas in a 1 pixel border: a 3x3 frame.
    let canvas = [10u8, 20, 30, 40];
    let mut frame = vec![0u8; 3 * 3 * 4];
    let color = Color { r: 1, g: 2, b: 3, a: 4 };
    blit_frame(&mut frame, &canvas, 1, 1, 1, color);
    for pixel in 0..9 {
        let bytes = &frame[pixel * 4..pixel * 4 + 4];
        if pixel == 4 {
            assert_eq!(bytes, &canvas[..]);
        } else {
            assert_eq!(bytes, &[3, 2, 1, 4][..], "pixel {pixel}");
        }
    }
}

#[test]
fn a_wide_canvas_keeps_its_rows() {
    // 2x2 canvas, border 2: frame 6x6.
    let canvas: Vec<u8> = (1..=16).collect();
    let mut frame = vec![9u8; 6 * 6 * 4 + 3];
    blit_frame(&mut frame, &canvas, 2, 2, 2, Color::hex(0));
    let stride = 6 * 4;
    assert_eq!(&frame[2 * stride + 8..2 * stride + 16], &canvas[0..8]);
    assert_eq!(&frame[3 * stride + 8..3 * stride + 16], &canvas[8..16]);
    assert_eq!(&frame[0..4], &[0, 0, 0, 255]);
    assert_eq!(&frame[6 * 6 * 4..], &[9, 9, 9], "a partial trailing pixel is untouched");
}

#[test]
fn slots_are_reused_once_released() {
    let mut ring = SlotRing::new(300);
    assert_eq!(ring.acquire(100), Some(0));
    assert_eq!(ring.acquire(100), Some(1));
    assert_eq!(ring.acquire(100), Some(2));
    assert_eq!(ring.acquire(100), None, "every slot is busy and the pool is full");
    assert_eq!(ring.offset(2), 200);
    assert!(ring.release(1));
    assert!(!ring.release(7));
    assert_eq!(ring.acquire(100), Some(1));
    assert_eq!(ring.acquire(100), None);
}

#[test]
fn a_pool_is_reused_for_frames_that_fit_twice() {
    assert!(reusable_for(400, 16, 200, 16));
    assert!(!reusable_for(399, 16, 200, 16));
    assert!(!reusable_for(400, 16, 200, 32));
}
