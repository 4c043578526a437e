//! Driver core for an 8x8 RGB LED matrix, together with the small bytecode
//! machine and the Fibonacci helper that share this workspace.
//!
//! The matrix core is organised as four layers:
//! - [`image`]: the pixel model, a byte-exact codec and the fill generators;
//! - [`matrix`]: the bit-banged shift protocol, modelled as the exact
//!   sequence of pin events it drives;
//! - [`serial`]: the framing state machine that turns an untrusted byte
//!   stream into complete frames;
//! - [`scheduler`]: the fixed-priority executive that interleaves reception,
//!   display and rotation over one shared image slot.

pub mod fibo;
pub mod gamma;
pub mod image;
pub mod machine;
pub mod matrix;
pub mod scheduler;
pub mod serial;
