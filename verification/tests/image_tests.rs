use led_matrix::gamma::gamma_correct;
use led_matrix::image::Color;
use led_matrix::image::Image;

#[test]
fn gamma_endpoints_and_midpoint() {
    assert_eq!(gamma_correct(0), 0);
    assert_eq!(gamma_correct(255), 255);
    // 128 * 128 = 16384; (16384 + 127) / 255 = 64
    assert_eq!(gamma_correct(128), 64);
    // 16 * 16 = 256; (256 + 127) / 255 = 1
    assert_eq!(gamma_correct(16), 1);
}

#[test]
fn color_gamma_correct_applies_per_channel() {
    let c = Color { r: 255, g: 128, b: 0 };
    let g = c.gamma_correct();
    assert_eq!(g, Color { r: 255, g: 64, b: 0 });
}

#[test]
fn color_mul_scales_and_saturates() {
    let c = Color { r: 100, g: 200, b: 0 };
    assert_eq!(c.mul(2), Color { r: 200, g: 255, b: 0 });
    assert_eq!(c.mul(0), Color { r: 0, g: 0, b: 0 });
    // a huge multiplier saturates every nonzero channel
    let d = Color { r: 1, g: 2, b: 3 }.mul(u32::MAX);
    assert_eq!(d, Color { r: 255, g: 255, b: 255 });
}

#[test]
fn color_div_rounds_toward_zero() {
    let c = Color { r: 255, g: 100, b: 1 };
    assert_eq!(c.div(3), Color { r: 85, g: 33, b: 0 });
    assert_eq!(c.div(1), c);
}

#[test]
fn new_solid_fills_every_cell() {
    let c = Color { r: 7, g: 8, b: 9 };
    let img = Image::new_solid(c);
    for row in 0..8 {
        for col in 0..8 {
            assert_eq!(img.get(row, col), c);
        }
    }
}

#[test]
fn default_image_is_black() {
    let img = Image::default();
    assert_eq!(img.get(3, 3), Color { r: 0, g: 0, b: 0 });
}

#[test]
fn row_returns_the_contiguous_row() {
    let mut img = Image::new_solid(Color { r: 0, g: 0, b: 0 });
    img.set(2, 0, Color { r: 1, g: 0, b: 0 });
    img.set(2, 7, Color { r: 2, g: 0, b: 0 });
    let row = img.row(2);
    assert_eq!(row.len(), 8);
    assert_eq!(row[0], Color { r: 1, g: 0, b: 0 });
    assert_eq!(row[7], Color { r: 2, g: 0, b: 0 });
    assert_eq!(row[3], Color { r: 0, g: 0, b: 0 });
}

#[test]
fn encode_is_row_major_three_bytes_per_pixel() {
    let mut img = Image::new_solid(Color { r: 0, g: 0, b: 0 });
    img.set(0, 0, Color { r: 1, g: 2, b: 3 });
    img.set(0, 1, Color { r: 4, g: 5, b: 6 });
    img.set(1, 0, Color { r: 7, g: 8, b: 9 });
    let b = img.to_bytes();
    assert_eq!(b.len(), 192);
    assert_eq!(&b[0..6], &[1, 2, 3, 4, 5, 6]);
    // row 1 starts at byte 24
    assert_eq!(&b[24..27], &[7, 8, 9]);
}

#[test]
fn byte_round_trip_preserves_every_pixel() {
    let mut img = Image::new_solid(Color { r: 0, g: 0, b: 0 });
    for row in 0..8 {
        for col in 0..8 {
            let v = (row * 8 + col) as u8;
            img.set(row, col, Color { r: v, g: v.wrapping_mul(3), b: 255 - v });
        }
    }
    let bytes = img.to_bytes();
    let back = Image::from_bytes(&bytes);
    assert_eq!(back, img);
    // and encoding the decoded image gives the same bytes again
    assert_eq!(back.to_bytes(), bytes);
}

#[test]
fn set_byte_touches_exactly_one_channel() {
    let mut img = Image::new_solid(Color { r: 10, g: 20, b: 30 });
    img.set_byte(5, 99);
    // byte 5 is pixel 1, channel 2 (blue)
    assert_eq!(img.get(0, 1), Color { r: 10, g: 20, b: 99 });
    assert_eq!(img.get(0, 0), Color { r: 10, g: 20, b: 30 });
    assert_eq!(img.get(0, 2), Color { r: 10, g: 20, b: 30 });
}

#[test]
fn gradient_falls_off_along_the_diagonal() {
    let img = Image::gradient(Color { r: 255, g: 0, b: 0 });
    // (0, 0): divisor 1
    assert_eq!(img.get(0, 0), Color { r: 255, g: 0, b: 0 });
    // (0, 1): divisor 1 + 0 + 1 = 2
    assert_eq!(img.get(0, 1), Color { r: 127, g: 0, b: 0 });
    // (1, 0): divisor 1 + 1 + 0 = 2
    assert_eq!(img.get(1, 0), Color { r: 127, g: 0, b: 0 });
    // (7, 7): divisor 1 + 49 + 7 = 57; 255 / 57 = 4
    assert_eq!(img.get(7, 7), Color { r: 4, g: 0, b: 0 });
}
