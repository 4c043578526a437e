//! Perceptual brightness compensation for one 8-bit channel.
//!
//! The display chip drives its outputs linearly, while perceived brightness
//! is closer to the square of the duty cycle.  Channels are therefore passed
//! through an integer square-law curve before they are shifted out.

use vstd::prelude::*;

verus! {

/// The corrected value of a channel: `x * x / 255`, rounded to nearest.
/// The curve fixes 0 and 255 and darkens everything between.
pub open spec fn gamma_of(x: u8) -> u8 {
    (((x as int) * (x as int) + 127) / 255) as u8
}

/// Apply the brightness-correction curve to one channel value.
pub fn gamma_correct(x: u8) -> (r: u8)
    ensures
        r == gamma_of(x),
{
    proof {
        assert((x as int) * (x as int) <= 255 * 255) by (nonlinear_arith)
            requires
                x <= 255,
        ;
    }
    let p: u32 = (x as u32) * (x as u32);
    ((p + 127) / 255) as u8
}

} // verus!
