use rip8::display::{get_sub_arr, Display, Pixel};

#[test]
fn test_byte_to_digits() {
    let disp = Display::new();
    let res = disp.byte_to_digits(0b10101010);
    let test: [u8; 8] = [1, 0, 1, 0, 1, 0, 1, 0];
    assert_eq!(test, res);
}

#[test]
pub fn test_write_byte() {
    let x = 0;
    let y = 0;
    let byte = 0b10101010;
    let mut disp = Display::new();
    let res = disp.write_bytes(vec![byte], x, y);

    let arr: [u8; 8] = get_sub_arr(&disp.pixels, x, y);
    // Nothing was lit beforehand, so the draw clears no pixel: no collision.
    assert_eq!(res, 0);
    assert_eq!(arr, [1, 0, 1, 0, 1, 0, 1, 0])
}

#[test]
pub fn test_write_byte_overflow() {
    let mut disp = Display::new();
    let res = disp.write_bytes(vec![0b10101010], 60, 1);
    assert_eq!(res, 0);
    let mut list: [u8; 8] = [0; 8];
    let start = 60 + 64;
    for i in 0..8 {
        list[i] = if disp.pixels[i + start] { 1 } else { 0 };
    }
    // The row wraps at column 64: the bits past the right edge land back at
    // column 0 of the same row, not at column 64 onward.
    assert_eq!(list, [1, 0, 1, 0, 0, 0, 0, 0])
}

#[test]
fn write_bytes_twice_restores_and_collides() {
    // The XOR involution seen from the surface itself: same sprite, same
    // spot, drawn twice.
    let mut disp = Display::new();
    let first = disp.write_bytes(vec![0xF0, 0x90], 10, 5);
    assert_eq!(first, 0);
    assert!(disp.pixels[5 * 64 + 10]);
    let second = disp.write_bytes(vec![0xF0, 0x90], 10, 5);
    assert_eq!(second, 1);
    for p in 0..2048 {
        assert!(!disp.pixels[p]);
    }
}

#[test]
fn write_bytes_wraps_vertically() {
    let mut disp = Display::new();
    disp.write_bytes(vec![0x80, 0x80], 0, 31);
    assert!(disp.pixels[31 * 64]);
    assert!(disp.pixels[0]);
}

#[test]
fn clear_turns_every_pixel_off() {
    let mut disp = Display::new();
    disp.write_bytes(vec![0xFF], 0, 0);
    disp.clear();
    for p in 0..2048 {
        assert!(!disp.pixels[p]);
    }
}

#[test]
fn draw_lists_one_rectangle_per_lit_pixel() {
    let mut disp = Display::new();
    disp.write_bytes(vec![0x80], 3, 2); // exactly one pixel: column 3, row 2
    let rects = disp.draw();
    assert_eq!(rects.len(), 1);
    assert_eq!(rects[0].x, 60);
    assert_eq!(rects[0].y, 40);
    assert_eq!(rects[0].w, 20);
    assert_eq!(rects[0].h, 20);
}

#[test]
fn pixel_new_scales_by_the_pixel_size() {
    let p = Pixel::new(7, 11);
    assert_eq!(p.x, 140);
    assert_eq!(p.y, 220);
    assert_eq!(p.w, 20);
    assert_eq!(p.h, 20);
}
