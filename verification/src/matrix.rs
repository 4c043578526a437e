//! The matrix driver: the chip-level bit-banged shift protocol and row
//! multiplexing.
//!
//! The driver owns the blank, latch, reset, clock and data lines and the
//! eight row-select lines, all as boolean-output capabilities.  It is
//! modelled here as the exact sequence of pin events it drives: every
//! public operation appends a fully specified event sequence to the trace,
//! so the downstream protocol is pinned bit for bit.  A hardware port plays
//! the trace onto real GPIO; a test double reads it back.

use vstd::prelude::*;

use crate::gamma::gamma_of;
use crate::image::Color;
use crate::image::Image;

verus! {

/// One observable action on the driver's output pins.
///
/// `Settle` stands for the physical settle wait (at least 100 ms) between
/// power-up and the release of the reset line; a hardware port performs the
/// delay, a test double checks its place in the sequence.
#[derive(Clone, Copy, PartialEq, Eq, Structural, Debug)]
pub enum PinEvent {
    /// The SB (blank) line set to the given level.
    Blank(bool),
    /// The LAT (latch) line set to the given level.
    Latch(bool),
    /// The RST (reset) line set to the given level.
    Reset(bool),
    /// The SCK (serial clock) line set to the given level.
    Clock(bool),
    /// The SDA (serial data) line set to the given level.
    Data(bool),
    /// Row-select line 0..=7 set to the given level.
    RowSel(u8, bool),
    /// The power-up settle wait.
    Settle,
}

/// Bit `k` (by significance) of a byte.
pub open spec fn bit_of(x: u8, k: u32) -> bool {
    (x >> k) & 1 == 1
}

/// The events that shift out one bit: data line, then a clock pulse.
pub open spec fn bit_events(b: bool) -> Seq<PinEvent> {
    seq![PinEvent::Data(b), PinEvent::Clock(true), PinEvent::Clock(false)]
}

/// The events that shift out one byte, most significant bit first.
pub open spec fn byte_events(x: u8) -> Seq<PinEvent> {
    bit_events(bit_of(x, 7)) + bit_events(bit_of(x, 6)) + bit_events(bit_of(x, 5)) + bit_events(
        bit_of(x, 4),
    ) + bit_events(bit_of(x, 3)) + bit_events(bit_of(x, 2)) + bit_events(bit_of(x, 1)) + bit_events(
        bit_of(x, 0),
    )
}

/// The events that shift out one pixel: gamma-corrected blue, green, red
/// bytes, 24 bits in all.
pub open spec fn pixel_events(c: Color) -> Seq<PinEvent> {
    byte_events(gamma_of(c.b)) + byte_events(gamma_of(c.g)) + byte_events(gamma_of(c.r))
}

/// A low pulse of the latch line.
pub open spec fn latch_events() -> Seq<PinEvent> {
    seq![PinEvent::Latch(false), PinEvent::Latch(true)]
}

/// The row deactivated when `row` is activated: its predecessor, with row 0
/// wrapping around to row 7, so the cycle 0..=7 always switches off the row
/// lit one step earlier.
pub open spec fn prev_row(row: int) -> int {
    if row == 0 {
        7
    } else {
        row - 1
    }
}

/// The events of one full row: the 8 pixels in reverse column order
/// (7 down to 0), 192 bits in all, then a latch pulse, then the previous
/// row-select dropped and the new one raised.
pub open spec fn row_events(row: int, pixels: Seq<Color>) -> Seq<PinEvent> {
    pixel_events(pixels[7]) + pixel_events(pixels[6]) + pixel_events(pixels[5]) + pixel_events(
        pixels[4],
    ) + pixel_events(pixels[3]) + pixel_events(pixels[2]) + pixel_events(pixels[1]) + pixel_events(
        pixels[0],
    ) + latch_events() + seq![PinEvent::RowSel(prev_row(row) as u8, false)] + seq![
        PinEvent::RowSel(row as u8, true),
    ]
}

/// `n` bytes of all-one bits, shifted out back to back.
pub open spec fn ones_events(n: int) -> Seq<PinEvent>
    decreases n,
{
    if n <= 0 {
        Seq::empty()
    } else {
        ones_events(n - 1) + byte_events(255)
    }
}

/// The bank-0 initialisation: blank low, 18 all-ones bytes (144 bits), a
/// latch pulse, blank restored high.
pub open spec fn bank0_events() -> Seq<PinEvent> {
    seq![PinEvent::Blank(false)] + ones_events(18) + latch_events() + seq![PinEvent::Blank(true)]
}

/// The full power-up sequence: blank and latch high, reset, clock, data and
/// every row-select low, the settle wait, reset released, then bank 0
/// primed.
pub open spec fn startup_events() -> Seq<PinEvent> {
    seq![
        PinEvent::Blank(true),
        PinEvent::Latch(true),
        PinEvent::Reset(false),
        PinEvent::Clock(false),
        PinEvent::Data(false),
        PinEvent::RowSel(0, false),
        PinEvent::RowSel(1, false),
        PinEvent::RowSel(2, false),
        PinEvent::RowSel(3, false),
        PinEvent::RowSel(4, false),
        PinEvent::RowSel(5, false),
        PinEvent::RowSel(6, false),
        PinEvent::RowSel(7, false),
        PinEvent::Settle,
        PinEvent::Reset(true),
    ] + bank0_events()
}

/// The events of rows 0 to `n - 1` of an image, each sent in turn.
pub open spec fn rows_events(img: Seq<Color>, n: int) -> Seq<PinEvent>
    decreases n,
{
    if n <= 0 {
        Seq::empty()
    } else {
        rows_events(img, n - 1) + row_events(n - 1, img.subrange(8 * (n - 1), 8 * (n - 1) + 8))
    }
}

/// The events of one full pass over an image, rows 0 to 7.
pub open spec fn image_events(img: Seq<Color>) -> Seq<PinEvent> {
    rows_events(img, 8)
}

/// The matrix driver.  Its view is the trace of pin events driven since
/// construction.
pub struct Matrix {
    events: Vec<PinEvent>,
}

impl View for Matrix {
    type V = Seq<PinEvent>;

    closed spec fn view(&self) -> Seq<PinEvent> {
        self.events@
    }
}

impl Matrix {
    /// Power the driver up: blank and latch start high, everything else
    /// low; after the settle wait the reset line is released and bank 0 is
    /// initialised.
    pub fn new() -> (m: Matrix)
        ensures
            m@ == startup_events(),
    {
        let mut m = Matrix { events: Vec::new() };
        m.events.push(PinEvent::Blank(true));
        m.events.push(PinEvent::Latch(true));
        m.events.push(PinEvent::Reset(false));
        m.events.push(PinEvent::Clock(false));
        m.events.push(PinEvent::Data(false));
        m.events.push(PinEvent::RowSel(0, false));
        m.events.push(PinEvent::RowSel(1, false));
        m.events.push(PinEvent::RowSel(2, false));
        m.events.push(PinEvent::RowSel(3, false));
        m.events.push(PinEvent::RowSel(4, false));
        m.events.push(PinEvent::RowSel(5, false));
        m.events.push(PinEvent::RowSel(6, false));
        m.events.push(PinEvent::RowSel(7, false));
        m.events.push(PinEvent::Settle);
        m.events.push(PinEvent::Reset(true));
        m.init_bank0();
        proof {
            assert(m@ =~= startup_events());
        }
        m
    }

    /// The trace of pin events driven so far.
    pub fn trace(&self) -> (t: &Vec<PinEvent>)
        ensures
            t@ == self@,
    {
        &self.events
    }

    /// A brief high pulse of the clock line.
    fn pulse_sck(&mut self)
        ensures
            final(self)@ == old(self)@ + seq![PinEvent::Clock(true), PinEvent::Clock(false)],
    {
        self.events.push(PinEvent::Clock(true));
        self.events.push(PinEvent::Clock(false));
        proof {
            assert(self@ =~= old(self)@ + seq![PinEvent::Clock(true), PinEvent::Clock(false)]);
        }
    }

    /// A brief low pulse of the latch line.
    fn pulse_lat(&mut self)
        ensures
            final(self)@ == old(self)@ + latch_events(),
    {
        self.events.push(PinEvent::Latch(false));
        self.events.push(PinEvent::Latch(true));
        proof {
            assert(self@ =~= old(self)@ + latch_events());
        }
    }

    /// Drive one row-select line to the given level.
    fn row(&mut self, row: usize, state: bool)
        requires
            row < 8,
        ensures
            final(self)@ == old(self)@ + seq![PinEvent::RowSel(row as u8, state)],
    {
        self.events.push(PinEvent::RowSel(row as u8, state));
        proof {
            assert(self@ =~= old(self)@ + seq![PinEvent::RowSel(row as u8, state)]);
        }
    }

    /// Shift out one bit: data line, then a clock pulse.
    fn send_bit(&mut self, b: bool)
        ensures
            final(self)@ == old(self)@ + bit_events(b),
    {
        self.events.push(PinEvent::Data(b));
        self.pulse_sck();
        proof {
            assert(self@ =~= old(self)@ + bit_events(b));
        }
    }

    /// Shift out one byte on the data line, most significant bit first,
    /// with a clock pulse after each bit.
    fn send_byte(&mut self, pixel: u8)
        ensures
            final(self)@ == old(self)@ + byte_events(pixel),
    {
        self.send_bit((pixel >> 7u32) & 1 == 1);
        self.send_bit((pixel >> 6u32) & 1 == 1);
        self.send_bit((pixel >> 5u32) & 1 == 1);
        self.send_bit((pixel >> 4u32) & 1 == 1);
        self.send_bit((pixel >> 3u32) & 1 == 1);
        self.send_bit((pixel >> 2u32) & 1 == 1);
        self.send_bit((pixel >> 1u32) & 1 == 1);
        self.send_bit((pixel >> 0u32) & 1 == 1);
        proof {
            let e = old(self)@;
            let s7 = bit_events(bit_of(pixel, 7));
            let s6 = bit_events(bit_of(pixel, 6));
            let s5 = bit_events(bit_of(pixel, 5));
            let s4 = bit_events(bit_of(pixel, 4));
            let s3 = bit_events(bit_of(pixel, 3));
            let s2 = bit_events(bit_of(pixel, 2));
            let s1 = bit_events(bit_of(pixel, 1));
            let s0 = bit_events(bit_of(pixel, 0));
            vstd::seq_lib::lemma_concat_associative(e, s7, s6);
            vstd::seq_lib::lemma_concat_associative(e, s7 + s6, s5);
            vstd::seq_lib::lemma_concat_associative(e, s7 + s6 + s5, s4);
            vstd::seq_lib::lemma_concat_associative(e, s7 + s6 + s5 + s4, s3);
            vstd::seq_lib::lemma_concat_associative(e, s7 + s6 + s5 + s4 + s3, s2);
            vstd::seq_lib::lemma_concat_associative(e, s7 + s6 + s5 + s4 + s3 + s2, s1);
            vstd::seq_lib::lemma_concat_associative(e, s7 + s6 + s5 + s4 + s3 + s2 + s1, s0);
        }
    }

    /// Shift out one pixel: gamma-corrected blue, green and red bytes.
    fn send_pixel(&mut self, c: Color)
        ensures
            final(self)@ == old(self)@ + pixel_events(c),
    {
        let g = c.gamma_correct();
        self.send_byte(g.b);
        self.send_byte(g.g);
        self.send_byte(g.r);
        proof {
            assert(self@ =~= old(self)@ + pixel_events(c));
        }
    }

    /// Send a full row: the 8 pixels in reverse column order, each as
    /// gamma-corrected blue, green, red bytes (192 bits in all), then a
    /// latch pulse; finally the previously active row-select is dropped and
    /// this row's is raised.  Row 0 deactivates row 7, closing the cycle.
    pub fn send_row(&mut self, row: usize, pixels: &[Color])
        requires
            row < 8,
            pixels@.len() == 8,
        ensures
            final(self)@ == old(self)@ + row_events(row as int, pixels@),
    {
        self.send_pixel(pixels[7]);
        self.send_pixel(pixels[6]);
        self.send_pixel(pixels[5]);
        self.send_pixel(pixels[4]);
        self.send_pixel(pixels[3]);
        self.send_pixel(pixels[2]);
        self.send_pixel(pixels[1]);
        self.send_pixel(pixels[0]);
        self.pulse_lat();
        let prev = if row == 0 {
            7
        } else {
            row - 1
        };
        self.row(prev, false);
        self.row(row, true);
        proof {
            let e = old(self)@;
            let p7 = pixel_events(pixels@[7]);
            let p6 = pixel_events(pixels@[6]);
            let p5 = pixel_events(pixels@[5]);
            let p4 = pixel_events(pixels@[4]);
            let p3 = pixel_events(pixels@[3]);
            let p2 = pixel_events(pixels@[2]);
            let p1 = pixel_events(pixels@[1]);
            let p0 = pixel_events(pixels@[0]);
            let la = latch_events();
            let d = seq![PinEvent::RowSel(prev_row(row as int) as u8, false)];
            let a = seq![PinEvent::RowSel(row as u8, true)];
            vstd::seq_lib::lemma_concat_associative(e, p7, p6);
            vstd::seq_lib::lemma_concat_associative(e, p7 + p6, p5);
            vstd::seq_lib::lemma_concat_associative(e, p7 + p6 + p5, p4);
            vstd::seq_lib::lemma_concat_associative(e, p7 + p6 + p5 + p4, p3);
            vstd::seq_lib::lemma_concat_associative(e, p7 + p6 + p5 + p4 + p3, p2);
            vstd::seq_lib::lemma_concat_associative(e, p7 + p6 + p5 + p4 + p3 + p2, p1);
            vstd::seq_lib::lemma_concat_associative(e, p7 + p6 + p5 + p4 + p3 + p2 + p1, p0);
            vstd::seq_lib::lemma_concat_associative(e, p7 + p6 + p5 + p4 + p3 + p2 + p1 + p0, la);
            vstd::seq_lib::lemma_concat_associative(
                e,
                p7 + p6 + p5 + p4 + p3 + p2 + p1 + p0 + la,
                d,
            );
            vstd::seq_lib::lemma_concat_associative(
                e,
                p7 + p6 + p5 + p4 + p3 + p2 + p1 + p0 + la + d,
                a,
            );
        }
    }

    /// Initialise bank 0: blank low, 18 bytes of all-one bits (144 bits),
    /// a latch pulse, blank restored high.
    fn init_bank0(&mut self)
        ensures
            final(self)@ == old(self)@ + bank0_events(),
    {
        self.events.push(PinEvent::Blank(false));
        let mut i: usize = 0;
        while i < 18
            invariant
                i <= 18,
                self@ == old(self)@ + seq![PinEvent::Blank(false)] + ones_events(i as int),
            decreases 18 - i,
        {
            self.send_byte(255);
            proof {
                assert(self@ =~= old(self)@ + seq![PinEvent::Blank(false)] + ones_events(
                    i as int + 1,
                ));
            }
            i = i + 1;
        }
        self.pulse_lat();
        self.events.push(PinEvent::Blank(true));
        proof {
            assert(self@ =~= old(self)@ + bank0_events());
        }
    }

    /// Display a full image: one pass over all 8 rows in order.
    pub fn display_image(&mut self, image: &Image)
        requires
            image.wf(),
        ensures
            final(self)@ == old(self)@ + image_events(image@),
    {
        let mut i: usize = 0;
        while i < 8
            invariant
                image.wf(),
                i <= 8,
                self@ == old(self)@ + rows_events(image@, i as int),
            decreases 8 - i,
        {
            let pixels = image.row(i);
            self.send_row(i, pixels);
            proof {
                assert(self@ =~= old(self)@ + rows_events(image@, i as int + 1));
            }
            i = i + 1;
        }
    }
}

} // verus!
