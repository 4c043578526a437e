use led_matrix::image::Color;
use led_matrix::scheduler::App;
use led_matrix::scheduler::Task;
use led_matrix::scheduler::DISPLAY_PERIOD;
use led_matrix::scheduler::ROTATE_PERIOD;
use led_matrix::serial::FRAME_BYTES;
use led_matrix::serial::FRAME_MARKER;

#[test]
fn display_period_is_one_four_hundred_eightieth_second() {
    // 80 MHz clock, one row at 60 Hz x 8 rows
    assert_eq!(DISPLAY_PERIOD, 80_000_000 / 480);
    assert_eq!(ROTATE_PERIOD, 80_000_000);
}

#[test]
fn pending_byte_preempts_due_display() {
    let mut app = App::new(0);
    // the display deadline has passed and a byte is pending
    app.advance_to(10 * DISPLAY_PERIOD);
    let line_before = app.next_line;
    let deadline_before = app.display_at;
    let trace_before = app.matrix.trace().len();
    let ran = app.step(Some(0x42));
    // reception ran, and the display state is untouched
    assert_eq!(ran, Task::ReceiveByte);
    assert_eq!(app.receiver.pos, 1);
    assert_eq!(app.next_line, line_before);
    assert_eq!(app.display_at, deadline_before);
    assert_eq!(app.matrix.trace().len(), trace_before);
    // with no byte pending, the overdue display runs next
    let ran2 = app.step(None);
    assert_eq!(ran2, Task::Display);
    assert!(app.matrix.trace().len() > trace_before);
}

#[test]
fn display_cadence_never_drifts() {
    let mut app = App::new(1_000);
    let mut expected = 1_000u64;
    for k in 0..100u64 {
        // dispatch arbitrarily late: drift must not accumulate
        app.advance_to(1_000 + k * DISPLAY_PERIOD + (k % 7) * 1_000);
        let before = app.display_at;
        let ran = app.step(None);
        assert_eq!(ran, Task::Display);
        assert_eq!(before, expected);
        assert_eq!(app.display_at, before + DISPLAY_PERIOD);
        expected += DISPLAY_PERIOD;
    }
}

#[test]
fn display_wraps_rows_and_reads_shared_image() {
    let mut app = App::new(0);
    for k in 0..16 {
        assert_eq!(app.next_line, k % 8);
        // keep the clock at the display deadline, so the display stays due
        // and outranks the rotation task
        app.advance_to(app.display_at);
        let ran = app.step(None);
        assert_eq!(ran, Task::Display);
    }
}

#[test]
fn completed_frame_swaps_whole_never_torn() {
    let mut app = App::new(0);
    app.step(Some(FRAME_MARKER));
    let blank = app.shared.to_bytes();
    // a partial frame leaves the shared image untouched
    for i in 0..FRAME_BYTES - 1 {
        app.step(Some((i % 100) as u8));
        assert_eq!(app.shared.to_bytes(), blank);
    }
    // the final byte swaps the whole frame in at once
    app.step(Some(99));
    let swapped = app.shared.to_bytes();
    for i in 0..FRAME_BYTES - 1 {
        assert_eq!(swapped[i], (i % 100) as u8);
    }
    assert_eq!(swapped[FRAME_BYTES - 1], 99);
    assert_eq!(app.receiver.pos, 0);
}

#[test]
fn rotation_cycles_red_green_blue_gradients() {
    let mut app = App::new(0);
    // let the display run once so its deadline moves past the rotation's
    let ran = app.step(None);
    assert_eq!(ran, Task::Display);
    let ran2 = app.step(None);
    assert_eq!(ran2, Task::RotateImage);
    // the shared image is now the red gradient
    assert_eq!(app.shared.get(0, 0), Color { r: 255, g: 0, b: 0 });
    assert_eq!(app.shared.get(0, 1), Color { r: 127, g: 0, b: 0 });
    assert_eq!(app.rotate_index, 1);
    assert_eq!(app.rotate_at, ROTATE_PERIOD);
}

#[test]
fn idle_runs_when_nothing_is_ready() {
    let mut app = App::new(5_000);
    // drain the two tasks due at start-up; afterwards every deadline lies
    // in the future and no byte is pending
    assert_eq!(app.step(None), Task::Display);
    assert_eq!(app.step(None), Task::RotateImage);
    let line = app.next_line;
    let display_at = app.display_at;
    let rotate_at = app.rotate_at;
    let trace_len = app.matrix.trace().len();
    let ran = app.step(None);
    assert_eq!(ran, Task::Idle);
    assert_eq!(app.next_line, line);
    assert_eq!(app.display_at, display_at);
    assert_eq!(app.rotate_at, rotate_at);
    assert_eq!(app.matrix.trace().len(), trace_len);
}
