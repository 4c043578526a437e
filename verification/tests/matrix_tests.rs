use led_matrix::image::Color;
use led_matrix::image::Image;
use led_matrix::matrix::Matrix;
use led_matrix::matrix::PinEvent;

fn push_bit(out: &mut Vec<PinEvent>, b: bool) {
    out.push(PinEvent::Data(b));
    out.push(PinEvent::Clock(true));
    out.push(PinEvent::Clock(false));
}

fn push_byte(out: &mut Vec<PinEvent>, x: u8) {
    for k in (0..8).rev() {
        push_bit(out, (x >> k) & 1 == 1);
    }
}

fn push_red_row(out: &mut Vec<PinEvent>, row: u8) {
    // 8 pixels of pure red, columns visited 7 down to 0: per pixel the
    // gamma-corrected blue (0), green (0), red (255) bytes
    for _ in 0..8 {
        push_byte(out, 0);
        push_byte(out, 0);
        push_byte(out, 255);
    }
    out.push(PinEvent::Latch(false));
    out.push(PinEvent::Latch(true));
    let prev = if row == 0 { 7 } else { row - 1 };
    out.push(PinEvent::RowSel(prev, false));
    out.push(PinEvent::RowSel(row, true));
}

#[test]
fn startup_sequence_is_bit_exact() {
    let m = Matrix::new();
    let t = m.trace();
    let mut expected = vec![
        PinEvent::Blank(true),
        PinEvent::Latch(true),
        PinEvent::Reset(false),
        PinEvent::Clock(false),
        PinEvent::Data(false),
    ];
    for r in 0..8 {
        expected.push(PinEvent::RowSel(r, false));
    }
    expected.push(PinEvent::Settle);
    expected.push(PinEvent::Reset(true));
    // bank 0: blank low, 18 bytes of all ones, latch pulse, blank high
    expected.push(PinEvent::Blank(false));
    for _ in 0..18 {
        push_byte(&mut expected, 255);
    }
    expected.push(PinEvent::Latch(false));
    expected.push(PinEvent::Latch(true));
    expected.push(PinEvent::Blank(true));
    assert_eq!(t.as_slice(), expected.as_slice());
}

#[test]
fn send_row_of_red_pixels_is_bit_exact() {
    let mut m = Matrix::new();
    let base = m.trace().len();
    let img = Image::new_solid(Color { r: 255, g: 0, b: 0 });
    m.send_row(3, img.row(3));
    let t = &m.trace()[base..];
    let mut expected = Vec::new();
    push_red_row(&mut expected, 3);
    assert_eq!(t, expected.as_slice());
    // 192 data bits in all: 16 zeros then 8 ones per pixel
    let bits: Vec<bool> = t
        .iter()
        .filter_map(|e| match e {
            PinEvent::Data(b) => Some(*b),
            _ => None,
        })
        .collect();
    assert_eq!(bits.len(), 192);
    for p in 0..8 {
        for k in 0..24 {
            assert_eq!(bits[24 * p + k], k >= 16);
        }
    }
}

#[test]
fn send_row_zero_deactivates_row_seven() {
    let mut m = Matrix::new();
    let base = m.trace().len();
    let img = Image::new_solid(Color { r: 0, g: 0, b: 0 });
    m.send_row(0, img.row(0));
    let t = &m.trace()[base..];
    let n = t.len();
    assert_eq!(t[n - 2], PinEvent::RowSel(7, false));
    assert_eq!(t[n - 1], PinEvent::RowSel(0, true));
}

#[test]
fn display_image_covers_all_eight_rows() {
    let mut m = Matrix::new();
    let base = m.trace().len();
    let img = Image::new_solid(Color { r: 255, g: 0, b: 0 });
    m.display_image(&img);
    let t = &m.trace()[base..];
    let mut expected = Vec::new();
    for r in 0..8 {
        push_red_row(&mut expected, r);
    }
    assert_eq!(t, expected.as_slice());
}
