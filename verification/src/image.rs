//! The pixel model: colors, the 8x8 image grid, its byte-exact codec and the
//! fill generators used for self-test patterns.
//!
//! An image is an ordered grid of 64 colors, row-major, three bytes per
//! pixel.  The raw byte view is produced and consumed by an explicit
//! per-channel codec: 192 bytes round-trip losslessly to and from the grid.

use vstd::prelude::*;

use crate::gamma::gamma_correct;
use crate::gamma::gamma_of;

verus! {

/// One pixel: red, green and blue channels, 8 bits each.
#[derive(Clone, Copy, PartialEq, Eq, Structural, Debug)]
pub struct Color {
    pub r: u8,
    pub g: u8,
    pub b: u8,
}

/// A channel scaled by the non-negative multiplier `m`, saturating at 255.
pub open spec fn scaled_channel(x: u8, m: u32) -> int {
    if (x as int) * (m as int) > 255 {
        255
    } else {
        (x as int) * (m as int)
    }
}

/// A channel divided by `d`, rounding toward zero.
pub open spec fn div_channel(x: u8, d: int) -> u8 {
    ((x as int) / d) as u8
}

impl Color {
    /// The color whose channels are all brightness-corrected (see [`crate::gamma`]).
    pub open spec fn spec_gamma_correct(self) -> Color {
        Color { r: gamma_of(self.r), g: gamma_of(self.g), b: gamma_of(self.b) }
    }

    /// Apply gamma correction to every channel of this color.
    pub fn gamma_correct(&self) -> (c: Color)
        ensures
            c == self.spec_gamma_correct(),
    {
        Color {
            r: gamma_correct(self.r),
            g: gamma_correct(self.g),
            b: gamma_correct(self.b),
        }
    }

    /// Scale every channel by `m`, saturating at 255.
    pub fn mul(self, m: u32) -> (c: Color)
        ensures
            c.r as int == scaled_channel(self.r, m),
            c.g as int == scaled_channel(self.g, m),
            c.b as int == scaled_channel(self.b, m),
    {
        Color {
            r: mul_channel(self.r, m),
            g: mul_channel(self.g, m),
            b: mul_channel(self.b, m),
        }
    }

    /// Divide every channel by `d`, rounding toward zero.
    pub fn div(self, d: u32) -> (c: Color)
        requires
            d >= 1,
        ensures
            c.r == div_channel(self.r, d as int),
            c.g == div_channel(self.g, d as int),
            c.b == div_channel(self.b, d as int),
    {
        Color {
            r: ((self.r as u32) / d) as u8,
            g: ((self.g as u32) / d) as u8,
            b: ((self.b as u32) / d) as u8,
        }
    }
}

impl Default for Color {
    /// The default color: black, every channel zero.
    fn default() -> (c: Color)
        ensures
            c == (Color { r: 0u8, g: 0u8, b: 0u8 }),
    {
        Color { r: 0, g: 0, b: 0 }
    }
}

/// One channel of the saturating scale, as executable code.
fn mul_channel(x: u8, m: u32) -> (r: u8)
    ensures
        r as int == scaled_channel(x, m),
{
    proof {
        assert((x as int) * (m as int) <= 255 * (u32::MAX as int)) by (nonlinear_arith)
            requires
                x <= 255,
                m <= u32::MAX,
        ;
        assert((x as int) * (m as int) >= 0) by (nonlinear_arith);
    }
    let p: u64 = (x as u64) * (m as u64);
    if p > 255 {
        255
    } else {
        p as u8
    }
}

/// Saturation law: however large the multiplier, a scaled channel never
/// leaves the byte range; in particular it is at most 255.
pub proof fn lemma_scale_saturates(x: u8, m: u32)
    ensures
        0 <= scaled_channel(x, m) <= 255,
{
    assert((x as int) * (m as int) >= 0) by (nonlinear_arith);
}

/// The raw byte view of a pixel sequence: three bytes per pixel, in red,
/// green, blue order, pixels in grid order.
pub open spec fn bytes_of(s: Seq<Color>) -> Seq<u8>
    decreases s.len(),
{
    if s.len() == 0 {
        Seq::empty()
    } else {
        seq![s[0].r, s[0].g, s[0].b] + bytes_of(s.skip(1))
    }
}

/// The pixel sequence read back from a raw byte view, three bytes per pixel.
pub open spec fn colors_of(b: Seq<u8>) -> Seq<Color>
    decreases b.len(),
{
    if b.len() < 3 {
        Seq::empty()
    } else {
        seq![Color { r: b[0], g: b[1], b: b[2] }] + colors_of(b.skip(3))
    }
}

pub proof fn lemma_bytes_of_len(s: Seq<Color>)
    ensures
        bytes_of(s).len() == 3 * s.len(),
    decreases s.len(),
{
    if s.len() > 0 {
        lemma_bytes_of_len(s.skip(1));
    }
}

/// The pixel count of a decoded byte view: one pixel per three whole bytes.
pub proof fn lemma_colors_of_len(b: Seq<u8>)
    ensures
        3 * colors_of(b).len() <= b.len() < 3 * colors_of(b).len() + 3,
    decreases b.len(),
{
    if b.len() >= 3 {
        lemma_colors_of_len(b.skip(3));
    }
}

pub proof fn lemma_bytes_of_push(s: Seq<Color>, c: Color)
    ensures
        bytes_of(s.push(c)) == bytes_of(s) + seq![c.r, c.g, c.b],
    decreases s.len(),
{
    lemma_bytes_of_len(s);
    lemma_bytes_of_len(s.push(c));
    if s.len() == 0 {
        assert(s.push(c)[0] == c);
        assert(s.push(c).skip(1) =~= Seq::<Color>::empty());
        assert(bytes_of(s.push(c)) =~= bytes_of(s) + seq![c.r, c.g, c.b]);
    } else {
        assert(s.push(c)[0] == s[0]);
        assert(s.push(c).skip(1) =~= s.skip(1).push(c));
        lemma_bytes_of_push(s.skip(1), c);
        assert(bytes_of(s.push(c)) =~= bytes_of(s) + seq![c.r, c.g, c.b]);
    }
}

/// The color written when channel `t` of a pixel is replaced by `v`.
pub open spec fn channel_update(c: Color, t: int, v: u8) -> Color {
    if t == 0 {
        Color { r: v, g: c.g, b: c.b }
    } else if t == 1 {
        Color { r: c.r, g: v, b: c.b }
    } else {
        Color { r: c.r, g: c.g, b: v }
    }
}

/// Replacing channel `t` of pixel `p` changes exactly byte `3*p + t` of the
/// raw view.
pub proof fn lemma_bytes_of_update(s: Seq<Color>, p: int, t: int, v: u8)
    requires
        0 <= p < s.len(),
        0 <= t < 3,
    ensures
        bytes_of(s.update(p, channel_update(s[p], t, v))) =~= bytes_of(s).update(3 * p + t, v),
    decreases p,
{
    lemma_bytes_of_len(s);
    let s2 = s.update(p, channel_update(s[p], t, v));
    lemma_bytes_of_len(s2);
    if p == 0 {
        assert(s2.skip(1) =~= s.skip(1));
    } else {
        lemma_bytes_of_update(s.skip(1), p - 1, t, v);
        assert(s2.skip(1) =~= s.skip(1).update(p - 1, channel_update(s[p], t, v)));
        lemma_bytes_of_len(s.skip(1));
    }
}

/// Round trip: encoding a pixel grid to bytes and decoding it again yields
/// an identical grid.
pub proof fn lemma_round_trip(s: Seq<Color>)
    ensures
        colors_of(bytes_of(s)) =~= s,
    decreases s.len(),
{
    if s.len() > 0 {
        lemma_bytes_of_len(s.skip(1));
        lemma_round_trip(s.skip(1));
        assert(bytes_of(s).skip(3) =~= bytes_of(s.skip(1)));
    }
}

/// Round trip, the other way: decoding a byte view whose length is a
/// multiple of three and encoding it again yields the same bytes.
pub proof fn lemma_round_trip_bytes(b: Seq<u8>)
    requires
        b.len() % 3 == 0,
    ensures
        bytes_of(colors_of(b)) =~= b,
    decreases b.len(),
{
    if b.len() >= 3 {
        assert(b.skip(3).len() % 3 == 0);
        lemma_round_trip_bytes(b.skip(3));
        assert(colors_of(b).skip(1) =~= colors_of(b.skip(3)));
    }
}

/// The 8x8 grid of pixels, row-major: pixel `(row, col)` is element
/// `8 * row + col`.
#[derive(Debug, PartialEq, Eq)]
pub struct Image {
    pixels: Vec<Color>,
}

impl View for Image {
    type V = Seq<Color>;

    closed spec fn view(&self) -> Seq<Color> {
        self.pixels@
    }
}

impl Image {
    /// Well-formed: exactly 64 pixels.
    pub open spec fn wf(&self) -> bool {
        self@.len() == 64
    }

    /// An image entirely filled with `color`.
    pub fn new_solid(color: Color) -> (img: Image)
        ensures
            img.wf(),
            forall|i: int| 0 <= i < 64 ==> img@[i] == color,
    {
        let mut pixels: Vec<Color> = Vec::new();
        let mut i: usize = 0;
        while i < 64
            invariant
                i <= 64,
                pixels@.len() == i,
                forall|j: int| 0 <= j < i ==> pixels@[j] == color,
            decreases 64 - i,
        {
            pixels.push(color);
            i = i + 1;
        }
        Image { pixels }
    }

    /// The pixel at `(row, col)`.
    pub fn get(&self, row: usize, col: usize) -> (c: Color)
        requires
            self.wf(),
            row < 8,
            col < 8,
        ensures
            c == self@[8 * row + col],
    {
        self.pixels[8 * row + col]
    }

    /// Replace the pixel at `(row, col)`.
    pub fn set(&mut self, row: usize, col: usize, c: Color)
        requires
            old(self).wf(),
            row < 8,
            col < 8,
        ensures
            final(self).wf(),
            final(self)@ == old(self)@.update(8 * row + col, c),
    {
        self.pixels.set(8 * row + col, c);
    }

    /// The 8 contiguous pixels of row `row`.
    pub fn row(&self, row: usize) -> (r: &[Color])
        requires
            self.wf(),
            row < 8,
        ensures
            r@ == self@.subrange(8 * row, 8 * row + 8),
    {
        &self.pixels.as_slice()[8 * row..8 * row + 8]
    }

    /// The raw byte view: 192 bytes, row-major, three bytes per pixel.
    pub fn to_bytes(&self) -> (b: Vec<u8>)
        requires
            self.wf(),
        ensures
            b@ == bytes_of(self@),
            b@.len() == 192,
    {
        let mut b: Vec<u8> = Vec::new();
        let mut i: usize = 0;
        while i < 64
            invariant
                self.wf(),
                i <= 64,
                b@ == bytes_of(self@.take(i as int)),
                b@.len() == 3 * i,
            decreases 64 - i,
        {
            let c = self.pixels[i];
            proof {
                lemma_bytes_of_push(self@.take(i as int), c);
                assert(self@.take(i as int).push(c) =~= self@.take(i as int + 1));
                lemma_bytes_of_len(self@.take(i as int + 1));
            }
            b.push(c.r);
            b.push(c.g);
            b.push(c.b);
            i = i + 1;
        }
        proof {
            assert(self@.take(64) =~= self@);
            lemma_bytes_of_len(self@);
        }
        b
    }

    /// Decode a raw byte view back into a grid.
    pub fn from_bytes(b: &[u8]) -> (img: Image)
        requires
            b@.len() == 192,
        ensures
            img.wf(),
            img@ == colors_of(b@),
            bytes_of(img@) == b@,
    {
        let mut pixels: Vec<Color> = Vec::new();
        let mut i: usize = 0;
        while i < 64
            invariant
                b@.len() == 192,
                i <= 64,
                pixels@.len() == i,
                pixels@ == colors_of(b@.take(3 * i as int)),
            decreases 64 - i,
        {
            let c = Color { r: b[3 * i], g: b[3 * i + 1], b: b[3 * i + 2] };
            pixels.push(c);
            proof {
                lemma_colors_of_take_step(b@, i as int);
            }
            i = i + 1;
        }
        proof {
            assert(b@.take(192) =~= b@);
            lemma_round_trip_bytes(b@);
        }
        Image { pixels }
    }

    /// Overwrite byte `i` of the raw view, leaving every other byte as it
    /// was: pixel `i / 3` has channel `i % 3` replaced.
    pub fn set_byte(&mut self, i: usize, v: u8)
        requires
            old(self).wf(),
            i < 192,
        ensures
            final(self).wf(),
            bytes_of(final(self)@) == bytes_of(old(self)@).update(i as int, v),
    {
        let p = i / 3;
        let t = i % 3;
        proof {
            vstd::arithmetic::div_mod::lemma_fundamental_div_mod(i as int, 3);
            lemma_bytes_of_update(self@, p as int, t as int, v);
        }
        let c = self.pixels[p];
        let c2 = if t == 0 {
            Color { r: v, g: c.g, b: c.b }
        } else if t == 1 {
            Color { r: c.r, g: v, b: c.b }
        } else {
            Color { r: c.r, g: c.g, b: v }
        };
        self.pixels.set(p, c2);
    }

    /// The pixel placed at `(row, col)` by [`Image::gradient`]: the base
    /// color divided by `1 + row*row + col`, a diagonal falloff.
    pub open spec fn gradient_pixel(color: Color, row: int, col: int) -> Color {
        let d = 1 + row * row + col;
        Color {
            r: div_channel(color.r, d),
            g: div_channel(color.g, d),
            b: div_channel(color.b, d),
        }
    }

    /// An image whose intensity falls off along the diagonal, used as a
    /// self-test pattern.
    pub fn gradient(color: Color) -> (img: Image)
        ensures
            img.wf(),
            forall|r: int, c: int|
                0 <= r < 8 && 0 <= c < 8 ==> img@[8 * r + c] == Image::gradient_pixel(color, r, c),
    {
        let mut img = Image::new_solid(Color { r: 0, g: 0, b: 0 });
        let mut row: usize = 0;
        while row < 8
            invariant
                img.wf(),
                row <= 8,
                forall|r: int, c: int|
                    0 <= r < row && 0 <= c < 8 ==> img@[8 * r + c] == Image::gradient_pixel(
                        color,
                        r,
                        c,
                    ),
            decreases 8 - row,
        {
            let mut col: usize = 0;
            while col < 8
                invariant
                    img.wf(),
                    row < 8,
                    col <= 8,
                    forall|r: int, c: int|
                        0 <= r < row && 0 <= c < 8 ==> img@[8 * r + c] == Image::gradient_pixel(
                            color,
                            r,
                            c,
                        ),
                    forall|c: int|
                        0 <= c < col ==> img@[8 * row + c] == Image::gradient_pixel(
                            color,
                            row as int,
                            c,
                        ),
                decreases 8 - col,
            {
                proof {
                    assert((row as int) * (row as int) < 64) by (nonlinear_arith)
                        requires
                            row < 8,
                    ;
                }
                let d: u32 = 1 + (row as u32) * (row as u32) + (col as u32);
                img.set(row, col, color.div(d));
                col = col + 1;
            }
            row = row + 1;
        }
        img
    }
}

impl Default for Image {
    /// An image filled with the default color, black.
    fn default() -> (img: Image)
        ensures
            img.wf(),
            forall|i: int| 0 <= i < 64 ==> img@[i] == (Color { r: 0u8, g: 0u8, b: 0u8 }),
    {
        Image::new_solid(Color { r: 0, g: 0, b: 0 })
    }
}

/// One decoding step: reading three more bytes appends one more pixel.
proof fn lemma_colors_of_take_step(b: Seq<u8>, i: int)
    requires
        0 <= i,
        3 * i + 3 <= b.len(),
    ensures
        colors_of(b.take(3 * i + 3)) =~= colors_of(b.take(3 * i)).push(
            Color { r: b[3 * i], g: b[3 * i + 1], b: b[3 * i + 2] },
        ),
    decreases i,
{
    lemma_colors_of_len(b.take(3 * i));
    lemma_colors_of_len(b.take(3 * i + 3));
    if i == 0 {
        assert(b.take(3).skip(3) =~= Seq::<u8>::empty());
        assert(colors_of(b.take(3 * i + 3)) =~= colors_of(b.take(3 * i)).push(
            Color { r: b[3 * i], g: b[3 * i + 1], b: b[3 * i + 2] },
        ));
    } else {
        lemma_colors_of_take_step(b.skip(3), i - 1);
        assert(b.take(3 * i + 3).skip(3) =~= b.skip(3).take(3 * (i - 1) + 3));
        assert(b.take(3 * i).skip(3) =~= b.skip(3).take(3 * (i - 1)));
        assert(colors_of(b.take(3 * i + 3)) =~= colors_of(b.take(3 * i)).push(
            Color { r: b[3 * i], g: b[3 * i + 1], b: b[3 * i + 2] },
        ));
    }
}

} // verus!
