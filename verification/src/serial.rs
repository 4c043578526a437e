//! Serial ingestion: the framing state machine that assembles an untrusted
//! byte stream into complete frames.
//!
//! The wire format has a single reserved byte, the frame marker `0xFF`;
//! every other byte is the next payload byte of a 192-byte frame (8 rows x
//! 8 columns x 3 channels, row-major, in the in-memory channel order).
//! A malformed stream simply never completes a frame: no error is raised.

use vstd::prelude::*;

use crate::image::bytes_of;
use crate::image::Color;
use crate::image::Image;

verus! {

/// The start-of-frame marker; it is discarded and never counts as payload.
pub const FRAME_MARKER: u8 = 0xFF;

/// Payload bytes in one complete frame.
pub const FRAME_BYTES: usize = 192;

/// The staging position after one received byte: a marker rewinds to the
/// start of the frame, payload advances by one.
pub open spec fn next_pos(pos: int, byte: u8) -> int {
    if byte == 0xFF {
        0
    } else {
        pos + 1
    }
}

/// The staging bytes after one received byte: payload lands at the current
/// position, a marker leaves the bytes as they were.
pub open spec fn next_staging(staging: Seq<u8>, pos: int, byte: u8) -> Seq<u8> {
    if byte == 0xFF {
        staging
    } else {
        staging.update(pos, byte)
    }
}

/// True exactly when this byte fills the last slot of the frame.
pub open spec fn completes_frame(pos: int, byte: u8) -> bool {
    byte != 0xFF && pos + 1 == 192
}

/// The ingestion state machine: a private staging image, filled byte by
/// byte, and the position of the next payload byte.  The staging image is
/// never observed by a consumer until a frame is complete.
pub struct SerialReceiver {
    /// The frame under construction.
    pub staging: Image,
    /// Offset into the staging image's raw byte view where the next payload
    /// byte lands; 0 also encodes "awaiting a frame".
    pub pos: usize,
}

impl SerialReceiver {
    /// Well-formed: a full staging grid, and a position inside the frame.
    pub open spec fn wf(&self) -> bool {
        self.staging.wf() && self.pos < 192
    }

    /// A fresh receiver: black staging image, position at the frame start.
    pub fn new() -> (rx: SerialReceiver)
        ensures
            rx.wf(),
            rx.pos == 0,
    {
        SerialReceiver { staging: Image::new_solid(Color { r: 0, g: 0, b: 0 }), pos: 0 }
    }

    /// Advance the state machine by one received byte.  Returns true exactly
    /// when the byte completes a frame; the frame then sits whole in
    /// `staging` and the position has rewound to the start.  Never blocks,
    /// never allocates, never raises an error.
    pub fn push(&mut self, byte: u8) -> (complete: bool)
        requires
            old(self).wf(),
        ensures
            final(self).wf(),
            complete == completes_frame(old(self).pos as int, byte),
            bytes_of(final(self).staging@) == next_staging(
                bytes_of(old(self).staging@),
                old(self).pos as int,
                byte,
            ),
            final(self).pos as int == if complete {
                0
            } else {
                next_pos(old(self).pos as int, byte)
            },
    {
        if byte == FRAME_MARKER {
            self.pos = 0;
            false
        } else {
            self.staging.set_byte(self.pos, byte);
            self.pos = self.pos + 1;
            if self.pos == FRAME_BYTES {
                self.pos = 0;
                true
            } else {
                false
            }
        }
    }
}

} // verus!
