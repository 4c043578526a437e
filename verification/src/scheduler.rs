//! The fixed-priority executive: reception, display and rotation tasks
//! interleaved over one shared image slot, driven by a monotonic clock.
//!
//! The execution model is a single core with run-to-completion tasks: a
//! dispatched task finishes before a lower-priority one resumes, so the
//! shared slot is only ever observed between whole task runs.  The
//! dispatcher here is that model made explicit and deterministic: each
//! [`App::step`] runs the single highest-priority ready task.  Priorities,
//! highest first: byte reception, display, rotation, idle.
//!
//! The display task is rescheduled at `deadline + period`, anchored to the
//! previous deadline rather than to "now", so late dispatch never
//! accumulates drift.

use vstd::prelude::*;

use crate::image::bytes_of;
use crate::image::colors_of;
use crate::image::Color;
use crate::image::Image;
use crate::matrix::row_events;
use crate::matrix::Matrix;
use crate::serial::completes_frame;
use crate::serial::next_pos;
use crate::serial::next_staging;
use crate::serial::SerialReceiver;

verus! {

/// Ticks per second of the monotonic clock.
pub const CLOCK_HZ: u64 = 80_000_000;

/// Ticks between two display activations: one row every 1/480 s, so the
/// whole 8-row frame refreshes at 60 Hz.
pub const DISPLAY_PERIOD: u64 = CLOCK_HZ / (60 * 8);

/// Ticks between two rotation activations: one second.
pub const ROTATE_PERIOD: u64 = CLOCK_HZ;

/// The task chosen by one dispatch.
#[derive(Clone, Copy, PartialEq, Eq, Structural, Debug)]
pub enum Task {
    /// Byte reception, the highest priority.
    ReceiveByte,
    /// Periodic row display.
    Display,
    /// Periodic pattern rotation, the lowest real task.
    RotateImage,
    /// Nothing was ready.
    Idle,
}

/// The whole system: the shared image slot, the ingestion state machine
/// with its private staging image, the matrix driver, the per-task state
/// and the virtual clock.
pub struct App {
    /// The monotonic clock, in ticks.
    pub now: u64,
    /// The one shared mutable resource: the image the display task reads
    /// and ingestion or rotation replaces wholesale.
    pub shared: Image,
    /// The serial ingestion state machine.
    pub receiver: SerialReceiver,
    /// The matrix driver.
    pub matrix: Matrix,
    /// The row the display task emits next, wrapping 0..=7.
    pub next_line: usize,
    /// The absolute instant of the next display activation.
    pub display_at: u64,
    /// The absolute instant of the next rotation activation.
    pub rotate_at: u64,
    /// Which solid color the next rotation paints, cycling red, green, blue.
    pub rotate_index: usize,
}

/// The color painted by rotation step `i`: red, green, blue in turn.
pub open spec fn cycle_color(i: int) -> Color {
    if i == 0 {
        Color { r: 255, g: 0, b: 0 }
    } else if i == 1 {
        Color { r: 0, g: 255, b: 0 }
    } else {
        Color { r: 0, g: 0, b: 255 }
    }
}

/// What one run of the reception task does: the ingestion state machine
/// advances by one byte, and exactly when that byte completes a frame the
/// staging and shared images are exchanged.  Nothing else moves: the
/// display and rotation state, the matrix trace and the clock are
/// untouched.
pub open spec fn receive_transition(pre: App, post: App, byte: u8) -> bool {
    let staged = next_staging(bytes_of(pre.receiver.staging@), pre.receiver.pos as int, byte);
    &&& if completes_frame(pre.receiver.pos as int, byte) {
        &&& post.shared@ == colors_of(staged)
        &&& post.receiver.staging@ == pre.shared@
        &&& post.receiver.pos == 0
    } else {
        &&& post.shared@ == pre.shared@
        &&& bytes_of(post.receiver.staging@) == staged
        &&& post.receiver.pos as int == next_pos(pre.receiver.pos as int, byte)
    }
    &&& post.matrix@ == pre.matrix@
    &&& post.next_line == pre.next_line
    &&& post.display_at == pre.display_at
    &&& post.rotate_at == pre.rotate_at
    &&& post.rotate_index == pre.rotate_index
    &&& post.now == pre.now
}

/// What one run of the display task does: the current row of the shared
/// image goes out through the matrix driver, the row index advances with
/// wraparound, and the next activation is scheduled exactly one period
/// after the previous deadline — independent of `now`, so execution delay
/// never shifts the cadence.
pub open spec fn display_transition(pre: App, post: App) -> bool {
    &&& post.matrix@ == pre.matrix@ + row_events(
        pre.next_line as int,
        pre.shared@.subrange(8 * pre.next_line as int, 8 * pre.next_line as int + 8),
    )
    &&& post.next_line == (pre.next_line + 1) % 8
    &&& post.display_at == pre.display_at + DISPLAY_PERIOD
    &&& post.shared == pre.shared
    &&& post.receiver == pre.receiver
    &&& post.rotate_at == pre.rotate_at
    &&& post.rotate_index == pre.rotate_index
    &&& post.now == pre.now
}

/// What one run of the rotation task does: the shared image is replaced
/// wholesale by the gradient of the next color in the red, green, blue
/// cycle, and the task is rescheduled one period after its deadline.
pub open spec fn rotate_transition(pre: App, post: App) -> bool {
    &&& post.shared@.len() == 64
    &&& forall|r: int, c: int|
        0 <= r < 8 && 0 <= c < 8 ==> post.shared@[8 * r + c] == Image::gradient_pixel(
            cycle_color(pre.rotate_index as int),
            r,
            c,
        )
    &&& post.rotate_index == (pre.rotate_index + 1) % 3
    &&& post.rotate_at == pre.rotate_at + ROTATE_PERIOD
    &&& post.receiver == pre.receiver
    &&& post.matrix@ == pre.matrix@
    &&& post.next_line == pre.next_line
    &&& post.display_at == pre.display_at
    &&& post.now == pre.now
}

impl App {
    /// Well-formed: full grids everywhere, the row index within the matrix
    /// and the rotation index within its cycle.
    pub open spec fn wf(&self) -> bool {
        &&& self.shared.wf()
        &&& self.receiver.wf()
        &&& self.next_line < 8
        &&& self.rotate_index < 3
    }

    /// Bring the system up at instant `start`: both images default-filled,
    /// the matrix driver through its power-up sequence, and the periodic
    /// tasks first scheduled at `start` itself.
    pub fn new(start: u64) -> (app: App)
        ensures
            app.wf(),
            app.now == start,
            app.display_at == start,
            app.rotate_at == start,
            app.next_line == 0,
            app.rotate_index == 0,
            app.receiver.pos == 0,
            app.matrix@ == crate::matrix::startup_events(),
            forall|i: int| 0 <= i < 64 ==> app.shared@[i] == (Color { r: 0u8, g: 0u8, b: 0u8 }),
    {
        App {
            now: start,
            shared: Image::new_solid(Color { r: 0, g: 0, b: 0 }),
            receiver: SerialReceiver::new(),
            matrix: Matrix::new(),
            next_line: 0,
            display_at: start,
            rotate_at: start,
            rotate_index: 0,
        }
    }

    /// Advance the monotonic clock.  Time only moves forward.
    pub fn advance_to(&mut self, t: u64)
        requires
            old(self).now <= t,
        ensures
            *final(self) == (App { now: t, ..*old(self) }),
    {
        self.now = t;
    }

    /// The reception task: drain one byte into the ingestion state machine
    /// and, only at the instant a frame completes, exchange the staging and
    /// shared images in O(1).
    ///
    /// The last clause is the atomicity guarantee of the shared slot: after
    /// any received byte the shared image is either exactly the prior frame
    /// or exactly the completed new frame, never a partial mixture.
    pub fn receive_byte(&mut self, byte: u8)
        requires
            old(self).wf(),
        ensures
            final(self).wf(),
            receive_transition(*old(self), *final(self), byte),
            final(self).shared@ == old(self).shared@ || final(self).shared@ == colors_of(
                next_staging(
                    bytes_of(old(self).receiver.staging@),
                    old(self).receiver.pos as int,
                    byte,
                ),
            ),
    {
        let complete = self.receiver.push(byte);
        if complete {
            proof {
                crate::image::lemma_round_trip(self.receiver.staging@);
            }
            core::mem::swap(&mut self.shared, &mut self.receiver.staging);
        }
    }

    /// The display task: emit the current row of the shared image, advance
    /// the row index with wraparound, and reschedule exactly one period
    /// after the previous deadline.
    pub fn display(&mut self)
        requires
            old(self).wf(),
            old(self).display_at + DISPLAY_PERIOD <= u64::MAX,
        ensures
            final(self).wf(),
            display_transition(*old(self), *final(self)),
    {
        self.matrix.send_row(self.next_line, self.shared.row(self.next_line));
        self.next_line = (self.next_line + 1) % 8;
        self.display_at = self.display_at + DISPLAY_PERIOD;
    }

    /// The rotation task: overwrite the shared image with the gradient of
    /// the next color in the red, green, blue cycle, and reschedule one
    /// period after the deadline.
    pub fn rotate_image(&mut self)
        requires
            old(self).wf(),
            old(self).rotate_at + ROTATE_PERIOD <= u64::MAX,
        ensures
            final(self).wf(),
            rotate_transition(*old(self), *final(self)),
    {
        let color = if self.rotate_index == 0 {
            Color { r: 255, g: 0, b: 0 }
        } else if self.rotate_index == 1 {
            Color { r: 0, g: 255, b: 0 }
        } else {
            Color { r: 0, g: 0, b: 255 }
        };
        self.shared = Image::gradient(color);
        self.rotate_index = (self.rotate_index + 1) % 3;
        self.rotate_at = self.rotate_at + ROTATE_PERIOD;
    }

    /// One dispatch of the fixed-priority executive: run the single
    /// highest-priority ready task to completion.
    ///
    /// A pending byte always wins: even when the display deadline has
    /// passed, a dispatch with a byte pending performs the reception
    /// transition — whose effects therefore become observable before the
    /// display's — and leaves the display state untouched.
    pub fn step(&mut self, byte: Option<u8>) -> (ran: Task)
        requires
            old(self).wf(),
            old(self).display_at + DISPLAY_PERIOD <= u64::MAX,
            old(self).rotate_at + ROTATE_PERIOD <= u64::MAX,
        ensures
            final(self).wf(),
            (match byte {
                Some(b) => ran == Task::ReceiveByte && receive_transition(
                    *old(self),
                    *final(self),
                    b,
                ),
                None => {
                    if old(self).now >= old(self).display_at {
                        ran == Task::Display && display_transition(*old(self), *final(self))
                    } else if old(self).now >= old(self).rotate_at {
                        ran == Task::RotateImage && rotate_transition(*old(self), *final(self))
                    } else {
                        ran == Task::Idle && *final(self) == *old(self)
                    }
                },
            }),
    {
        match byte {
            Some(b) => {
                self.receive_byte(b);
                Task::ReceiveByte
            },
            None => {
                if self.now >= self.display_at {
                    self.display();
                    Task::Display
                } else if self.now >= self.rotate_at {
                    self.rotate_image();
                    Task::RotateImage
                } else {
                    Task::Idle
                }
            },
        }
    }
}

/// Priority law: the reception task preempts the display.  Whenever a
/// dispatch performs the reception transition — which it does for every
/// pending byte, however overdue the display is — the display's state is
/// untouched: no row goes out and its schedule does not move.
pub proof fn lemma_receive_preempts_display(pre: App, post: App, byte: u8)
    requires
        receive_transition(pre, post, byte),
    ensures
        post.matrix@ == pre.matrix@,
        post.next_line == pre.next_line,
        post.display_at == pre.display_at,
{
}

/// Atomicity law: one received byte leaves the shared image either exactly
/// as it was or exactly equal to the completed frame — a concurrent display
/// read never observes a half-old, half-new grid.
pub proof fn lemma_no_tearing(pre: App, post: App, byte: u8)
    requires
        receive_transition(pre, post, byte),
    ensures
        post.shared@ == pre.shared@ || post.shared@ == colors_of(
            next_staging(bytes_of(pre.receiver.staging@), pre.receiver.pos as int, byte),
        ),
{
}

/// The display deadline after `k` activations, each rescheduled one period
/// after the previous deadline.
pub open spec fn nth_deadline(d0: int, k: nat) -> int
    decreases k,
{
    if k == 0 {
        d0
    } else {
        nth_deadline(d0, (k - 1) as nat) + DISPLAY_PERIOD
    }
}

/// Cadence law: successive display deadlines differ by exactly one period,
/// and after `k` activations the deadline sits exactly `k` periods after
/// the first — the reschedule rule never consults the clock, so execution
/// delay cannot accumulate drift.
pub proof fn lemma_cadence(d0: int, k: nat)
    ensures
        nth_deadline(d0, k + 1) - nth_deadline(d0, k) == DISPLAY_PERIOD,
        nth_deadline(d0, k) == d0 + k * DISPLAY_PERIOD,
    decreases k,
{
    if k == 0 {
    } else {
        lemma_cadence(d0, (k - 1) as nat);
        assert((k - 1) * DISPLAY_PERIOD + DISPLAY_PERIOD == k * DISPLAY_PERIOD) by (nonlinear_arith);
    }
}

} // verus!
