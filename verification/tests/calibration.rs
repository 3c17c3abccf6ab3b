use input_diagnostics::calibration::{
    map_coordinate, Calibration, CalibrationError, CalibrationStep, CALIBRATED_MAX_X,
    CALIBRATED_MAX_Y, MIN_CORNER_DIST2, MIN_DIAGONAL2, MIN_SPAN_X, MIN_SPAN_Y, REQUIRED_HOLD_MS,
};
use input_diagnostics::event_handler::{AppEvent, DeviceInfo, TrackpadEvent};

fn touch(x: u16, y: u16, released: bool) -> AppEvent {
    AppEvent::Touch { x, y, timestamp: 0, released, info: None }
}

fn dev(path: &str, x_max: Option<i32>, y_max: Option<i32>) -> DeviceInfo {
    DeviceInfo { path: path.to_string(), name: path.to_string(), abs_x_max: x_max, abs_y_max: y_max }
}

/// A calibration that waits for the first corner.
fn started() -> Calibration {
    let mut c = Calibration::new();
    c.step = CalibrationStep::TopLeft;
    c
}

/// Holds at `(x, y)` from `at` for `hold` milliseconds, then releases.
fn hold_and_release(c: &mut Calibration, x: u16, y: u16, at: u128, hold: u128) {
    c.record_touch(&touch(x, y, false), at);
    c.update_hold_duration(at + hold);
    c.record_touch(&touch(x, y, true), at + hold);
}

fn with_corners(pts: [(u16, u16); 4]) -> Calibration {
    let mut c = Calibration::new();
    c.pts = pts;
    c.finalize();
    c
}

const SQUARE: [(u16, u16); 4] = [(100, 100), (1100, 100), (1100, 1100), (100, 1100)];

#[test]
fn thresholds() {
    assert_eq!(MIN_SPAN_X, 100);
    assert_eq!(MIN_SPAN_Y, 100);
    assert_eq!(MIN_CORNER_DIST2, 2500);
    assert_eq!(MIN_DIAGONAL2, 1000);
    assert_eq!(CALIBRATED_MAX_X, 999);
    assert_eq!(CALIBRATED_MAX_Y, 999);
    assert_eq!(REQUIRED_HOLD_MS, 1000);
}

#[test]
fn new_calibration() {
    let c = Calibration::new();
    assert_eq!(c.step, CalibrationStep::DeviceSelection);
    assert_eq!(c.pts, [(0, 0); 4]);
    assert_eq!(c.count, 0);
    assert_eq!((c.min_x, c.max_x, c.min_y, c.max_y), (0, u16::MAX, 0, u16::MAX));
    assert!(!c.invert_x && !c.invert_y);
    assert!(!c.is_touching);
    assert_eq!(c.error, None);
    assert_eq!(c.touch_start_time, None);
    assert_eq!(c.touch_start_pos, None);
    assert_eq!(c.hold_duration_ms, 0);
    assert!(c.touch_samples.is_empty());
    assert!(c.available_devices.is_empty());
    assert_eq!(c.selected_device_index, 0);
    assert!(c.selected_device_path.is_none());
    assert!(c.selected_device_info.is_none());
    assert!(!c.is_done());
    // Before any calibration the scale is one: mapping only clamps.
    assert_eq!(c.map(0, 0), (0, 0));
    assert_eq!(c.map(500, 998), (500, 998));
    assert_eq!(c.map(999, 1000), (999, 999));
    assert_eq!(c.map(65535, 65535), (999, 999));
}

#[test]
fn finalize_accepts_a_large_square() {
    let c = with_corners(SQUARE);
    assert_eq!(c.error, None);
    assert_eq!((c.min_x, c.max_x, c.min_y, c.max_y), (100, 1100, 100, 1100));
    assert_eq!((c.span_x, c.span_y), (1000, 1000));
    assert!(!c.invert_x);
    assert!(!c.invert_y);
    // finalize itself does not touch the step.
    assert_eq!(c.step, CalibrationStep::DeviceSelection);
}

#[test]
fn finalize_detects_inverted_axes() {
    // X runs right to left.
    let c = with_corners([(1100, 100), (100, 100), (100, 1100), (1100, 1100)]);
    assert_eq!(c.error, None);
    assert!(c.invert_x);
    assert!(!c.invert_y);
    // Y runs bottom to top.
    let c = with_corners([(100, 1100), (1100, 1100), (1100, 100), (100, 100)]);
    assert_eq!(c.error, None);
    assert!(!c.invert_x);
    assert!(c.invert_y);
    // Both.
    let c = with_corners([(1100, 1100), (100, 1100), (100, 100), (1100, 100)]);
    assert!(c.invert_x);
    assert!(c.invert_y);
}

#[test]
fn inversion_of_y_goes_by_the_mean_of_each_row() {
    // Top mean (300 + 100) / 2 = 200, bottom mean (100 + 301) / 2 = 200: not inverted.
    let c = with_corners([(0, 300), (1000, 100), (1000, 301), (0, 100)]);
    assert_eq!(c.error, None);
    assert!(!c.invert_y);
    // Top mean (300 + 102) / 2 = 201, bottom mean 200: inverted.
    let c = with_corners([(0, 300), (1000, 102), (1000, 301), (0, 100)]);
    assert_eq!(c.error, None);
    assert!(c.invert_y);
}

#[test]
fn finalize_rejects_small_x_span() {
    let c = with_corners([(100, 100), (150, 100), (150, 1100), (100, 1100)]);
    assert_eq!(c.error, Some(CalibrationError::SpanXTooSmall { span: 50 }));
    assert_eq!(c.error.unwrap().message(), "Calibration failed: X span too small (50 < 100)");
    // Nothing of the mapping changed.
    assert_eq!((c.min_x, c.max_x, c.min_y, c.max_y), (0, u16::MAX, 0, u16::MAX));
    assert_eq!((c.span_x, c.span_y), (999, 999));
    // 99 is refused, 100 is not.
    let c = with_corners([(100, 100), (199, 100), (199, 1100), (100, 1100)]);
    assert_eq!(c.error, Some(CalibrationError::SpanXTooSmall { span: 99 }));
    let c = with_corners([(100, 100), (200, 100), (200, 1100), (100, 1100)]);
    assert_eq!(c.error, None);
}

#[test]
fn finalize_rejects_small_y_span() {
    let c = with_corners([(100, 100), (1100, 100), (1100, 107), (100, 107)]);
    assert_eq!(c.error, Some(CalibrationError::SpanYTooSmall { span: 7 }));
    assert_eq!(c.error.unwrap().message(), "Calibration failed: Y span too small (7 < 100)");
    let c = with_corners([(0, 0), (0, 0), (0, 0), (0, 0)]);
    assert_eq!(c.error, Some(CalibrationError::SpanXTooSmall { span: 0 }));
    assert_eq!(c.error.unwrap().message(), "Calibration failed: X span too small (0 < 100)");
}

#[test]
fn finalize_rejects_corners_that_are_close() {
    // Spans are fine, but the two top corners are 30 apart.
    let c = with_corners([(100, 100), (130, 100), (1100, 1100), (100, 1100)]);
    assert_eq!(c.error, Some(CalibrationError::CornersTooClose));
    assert_eq!(
        c.error.unwrap().message(),
        "Calibration failed: some samples too close together."
    );
    // Diagonal corners on one spot.
    let c = with_corners([(100, 100), (1100, 100), (100, 100), (100, 1100)]);
    assert_eq!(c.error, Some(CalibrationError::CornersTooClose));
    // Squared distance 2500 is far enough, 2499 is not: (30, 40) and (35, 35).
    let c = with_corners([(100, 100), (130, 140), (1100, 1100), (100, 1100)]);
    assert_eq!(c.error, None);
    let c = with_corners([(100, 100), (135, 135), (1100, 1100), (100, 1100)]);
    assert_eq!(c.error, Some(CalibrationError::CornersTooClose));
}

#[test]
fn area_message() {
    assert_eq!(
        CalibrationError::AreaTooSmall.message(),
        "Calibration failed: total area too small."
    );
}

#[test]
fn finalize_rejects_a_small_square() {
    // Diagonal squared 20 * 20 + 20 * 20 = 800 < 1000.
    let c = with_corners([(500, 500), (520, 500), (520, 520), (500, 520)]);
    assert!(c.error.is_some());
    assert_eq!(c.error, Some(CalibrationError::SpanXTooSmall { span: 20 }));
}

#[test]
fn finalize_handles_the_whole_raw_range() {
    let c = with_corners([(0, 0), (65535, 0), (65535, 65535), (0, 65535)]);
    assert_eq!(c.error, None);
    assert_eq!((c.span_x, c.span_y), (65535, 65535));
    assert_eq!(c.map(65535, 65535), (999, 999));
    assert_eq!(c.map(32768, 32767), (499, 499));
}

#[test]
fn map_scales_and_clamps() {
    let c = with_corners(SQUARE);
    assert_eq!(c.map(100, 100), (0, 0));
    assert_eq!(c.map(1100, 1100), (999, 999));
    // (600 - 100) * 999 / 1000 = 499.5
    assert_eq!(c.map(600, 350), (499, 249));
    assert_eq!(c.map(101, 1099), (0, 998));
    assert_eq!(c.map(102, 102), (1, 1));
    // Below the minimum and above the maximum.
    assert_eq!(c.map(0, 99), (0, 0));
    assert_eq!(c.map(1101, 65535), (999, 999));
}

#[test]
fn map_of_the_minimum_under_each_inversion() {
    let plain = with_corners(SQUARE);
    assert_eq!(plain.map(plain.min_x, plain.min_y), (0, 0));
    let x = with_corners([(1100, 100), (100, 100), (100, 1100), (1100, 1100)]);
    assert_eq!(x.map(x.min_x, x.min_y), (999, 0));
    let y = with_corners([(100, 1100), (1100, 1100), (1100, 100), (100, 100)]);
    assert_eq!(y.map(y.min_x, y.min_y), (0, 999));
    let both = with_corners([(1100, 1100), (100, 1100), (100, 100), (1100, 100)]);
    assert_eq!(both.map(both.min_x, both.min_y), (999, 999));
    assert_eq!(both.map(both.max_x, both.max_y), (0, 0));
    assert_eq!(both.map(600, 350), (999 - 499, 999 - 249));
}

#[test]
fn map_is_idempotent_where_it_only_clamps() {
    let c = Calibration::new();
    for raw in [0u16, 1, 500, 998, 999, 1000, 5000, 65535] {
        let once = c.map(raw, raw);
        assert_eq!(c.map(once.0, once.1), once);
    }
}

#[test]
fn map_changes_nothing() {
    let c = with_corners(SQUARE);
    let before = (c.min_x, c.span_x, c.invert_x, c.step, c.pts);
    let a = c.map(700, 700);
    let b = c.map(700, 700);
    assert_eq!(a, b);
    assert_eq!(before, (c.min_x, c.span_x, c.invert_x, c.step, c.pts));
}

#[test]
fn map_coordinate_guards_a_span_of_zero() {
    assert_eq!(map_coordinate(5, 5, 0, false, 999), 0);
    assert_eq!(map_coordinate(6, 5, 0, false, 999), 999);
    assert_eq!(map_coordinate(6, 5, 1, false, 999), 999);
    assert_eq!(map_coordinate(6, 5, 0, true, 999), 0);
    assert_eq!(map_coordinate(6, 5, 2, false, 999), 499);
    assert_eq!(map_coordinate(7, 5, 4, false, 10), 5);
    assert_eq!(map_coordinate(65535, 0, 65535, false, 65535), 65535);
    assert_eq!(map_coordinate(3, 0, 7, false, 999), 428);
}

#[test]
fn hold_and_release_takes_a_corner() {
    let mut c = started();
    c.record_touch(&touch(100, 200, false), 5000);
    assert!(c.is_touching);
    assert_eq!(c.touch_start_time, Some(5000));
    assert_eq!(c.touch_start_pos, Some((100, 200)));
    assert_eq!(c.touch_samples, vec![(100, 200)]);
    c.update_hold_duration(6000);
    assert_eq!(c.hold_duration_ms, 1000);
    c.record_touch(&touch(0, 0, true), 6000);
    assert_eq!(c.step, CalibrationStep::TopRight);
    assert_eq!(c.count, 1);
    assert_eq!(c.pts[0], (100, 200));
    assert!(!c.is_touching);
    assert_eq!(c.touch_start_time, None);
    assert_eq!(c.touch_start_pos, None);
    assert_eq!(c.hold_duration_ms, 0);
    assert!(c.touch_samples.is_empty());
}

#[test]
fn corner_is_the_mean_of_the_samples() {
    let mut c = started();
    c.record_touch(&touch(100, 200, false), 0);
    c.record_touch(&touch(101, 201, false), 10);
    c.record_touch(&touch(103, 202, false), 20);
    c.record_touch(&touch(104, 205, false), 30);
    assert_eq!(c.touch_samples.len(), 4);
    c.update_hold_duration(1500);
    // The position of the release itself is no sample.
    c.record_touch(&touch(900, 900, true), 1500);
    // 408 / 4 = 102, 808 / 4 = 202
    assert_eq!(c.pts[0], (102, 202));
    let mut c = started();
    c.record_touch(&touch(10, 0, false), 0);
    c.record_touch(&touch(11, 1, false), 0);
    c.update_hold_duration(1000);
    c.record_touch(&touch(0, 0, true), 1000);
    // 21 / 2 and 1 / 2, rounded down
    assert_eq!(c.pts[0], (10, 0));
}

#[test]
fn short_hold_takes_nothing() {
    let mut c = started();
    c.error = Some(CalibrationError::CornersTooClose);
    c.record_touch(&touch(100, 200, false), 5000);
    c.update_hold_duration(5999);
    assert_eq!(c.hold_duration_ms, 999);
    c.record_touch(&touch(100, 200, true), 5999);
    assert_eq!(c.step, CalibrationStep::TopLeft);
    assert_eq!(c.count, 0);
    assert_eq!(c.pts, [(0, 0); 4]);
    assert_eq!(c.error, Some(CalibrationError::CornersTooClose));
    assert!(!c.is_touching);
    assert_eq!(c.touch_start_time, None);
    assert!(c.touch_samples.is_empty());
}

#[test]
fn hold_that_was_never_ticked_takes_nothing() {
    let mut c = started();
    c.record_touch(&touch(100, 200, false), 0);
    c.record_touch(&touch(100, 200, true), 5000);
    assert_eq!(c.step, CalibrationStep::TopLeft);
    assert_eq!(c.count, 0);
}

#[test]
fn release_without_touch_takes_nothing() {
    let mut c = started();
    c.hold_duration_ms = 5000;
    c.record_touch(&touch(1, 1, true), 0);
    assert_eq!(c.step, CalibrationStep::TopLeft);
    assert_eq!(c.count, 0);
    assert_eq!(c.hold_duration_ms, 0);
}

#[test]
fn moving_too_far_starts_the_hold_over() {
    let mut c = started();
    c.record_touch(&touch(1000, 1000, false), 100);
    c.update_hold_duration(900);
    assert_eq!(c.hold_duration_ms, 800);
    // Exactly the tolerance of 100 is still in place.
    c.record_touch(&touch(1100, 900, false), 900);
    assert_eq!(c.touch_samples, vec![(1000, 1000), (1100, 900)]);
    assert_eq!(c.touch_start_time, Some(100));
    assert_eq!(c.hold_duration_ms, 800);
    // One more is too far.
    c.record_touch(&touch(1101, 1000, false), 950);
    assert_eq!(c.touch_samples, vec![(1101, 1000)]);
    assert_eq!(c.touch_start_time, Some(950));
    assert_eq!(c.touch_start_pos, Some((1101, 1000)));
    assert_eq!(c.hold_duration_ms, 0);
    // On the Y axis, and towards zero.
    c.record_touch(&touch(1101, 899, false), 960);
    assert_eq!(c.touch_samples, vec![(1101, 899)]);
    assert_eq!(c.touch_start_time, Some(960));
    // The distance is taken from where the hold began, not from the last sample.
    c.record_touch(&touch(1101, 999, false), 970);
    c.record_touch(&touch(1101, 1000, false), 980);
    assert_eq!(c.touch_samples, vec![(1101, 1000)]);
    assert_eq!(c.touch_start_time, Some(980));
}

#[test]
fn tolerance_follows_the_chosen_device() {
    let cases: [(Option<i32>, Option<i32>, u16); 9] = [
        (None, None, 100),
        (Some(1000), None, 100),
        (Some(4000), Some(100), 100),
        (Some(4039), None, 100),
        (Some(4040), None, 101),
        (Some(100), Some(8000), 200),
        (None, Some(32767), 819),
        (Some(-5), None, 100),
        (Some(-5), Some(-9), 100),
    ];
    for (x_max, y_max, tolerance) in cases {
        let mut c = started();
        c.selected_device_info = Some(dev("/dev/input/event1", x_max, y_max));
        c.record_touch(&touch(10000, 10000, false), 0);
        c.record_touch(&touch(10000 + tolerance, 10000, false), 1);
        assert_eq!(c.touch_samples.len(), 2, "{:?} {:?}", x_max, y_max);
        c.record_touch(&touch(10000 + tolerance + 1, 10000, false), 2);
        assert_eq!(c.touch_samples.len(), 1, "{:?} {:?}", x_max, y_max);
        assert_eq!(c.touch_start_time, Some(2));
    }
}

#[test]
fn four_corners_complete_the_calibration() {
    let mut c = started();
    let mut now = 0;
    for (i, (x, y)) in SQUARE.iter().enumerate() {
        hold_and_release(&mut c, *x, *y, now, 1200);
        now += 2000;
        assert_eq!(c.count, i + 1);
    }
    assert_eq!(c.step, CalibrationStep::Done);
    assert!(c.is_done());
    assert_eq!(c.error, None);
    assert_eq!(c.pts, SQUARE);
    assert_eq!((c.min_x, c.max_x, c.min_y, c.max_y), (100, 1100, 100, 1100));
    assert_eq!(c.map(600, 600), (499, 499));
    // Touches change nothing once the calibration is done.
    c.record_touch(&touch(5, 5, false), now);
    assert!(!c.is_touching);
    assert!(c.touch_samples.is_empty());
    assert_eq!(c.step, CalibrationStep::Done);
}

#[test]
fn steps_follow_the_corners_in_order() {
    let mut c = started();
    let mut steps = Vec::new();
    for (x, y) in SQUARE {
        steps.push(c.step);
        hold_and_release(&mut c, x, y, 0, 1000);
    }
    steps.push(c.step);
    assert_eq!(
        steps,
        vec![
            CalibrationStep::TopLeft,
            CalibrationStep::TopRight,
            CalibrationStep::BottomRight,
            CalibrationStep::BottomLeft,
            CalibrationStep::Done
        ]
    );
}

#[test]
fn refused_corners_restart_and_keep_the_error() {
    let mut c = started();
    for (x, y) in [(500, 500), (520, 500), (520, 520), (500, 520)] {
        hold_and_release(&mut c, x, y, 0, 1000);
    }
    assert_eq!(c.step, CalibrationStep::TopLeft);
    assert_eq!(c.count, 0);
    assert_eq!(c.error, Some(CalibrationError::SpanXTooSmall { span: 20 }));
    assert!(!c.is_done());
    // The error stays through touches, ticks and corners that are taken.
    c.record_touch(&touch(100, 100, false), 0);
    assert!(c.error.is_some());
    c.update_hold_duration(400);
    c.record_touch(&touch(100, 100, true), 400);
    assert!(c.error.is_some());
    for (x, y) in &SQUARE[..3] {
        hold_and_release(&mut c, *x, *y, 0, 1000);
        assert_eq!(c.error, Some(CalibrationError::SpanXTooSmall { span: 20 }));
    }
    // Until four corners are accepted.
    hold_and_release(&mut c, SQUARE[3].0, SQUARE[3].1, 0, 1000);
    assert_eq!(c.error, None);
    assert_eq!(c.step, CalibrationStep::Done);
}

#[test]
fn a_second_failure_replaces_the_first_error() {
    let mut c = started();
    for (x, y) in [(500, 500), (520, 500), (520, 520), (500, 520)] {
        hold_and_release(&mut c, x, y, 0, 1000);
    }
    for (x, y) in [(100, 100), (1100, 100), (1100, 130), (100, 130)] {
        hold_and_release(&mut c, x, y, 0, 1000);
    }
    assert_eq!(c.error, Some(CalibrationError::SpanYTooSmall { span: 30 }));
    assert_eq!(c.step, CalibrationStep::TopLeft);
    assert_eq!(c.count, 0);
}

#[test]
fn touches_are_ignored_while_a_device_is_chosen() {
    let mut c = Calibration::new();
    c.record_touch(&touch(1, 2, false), 0);
    assert!(!c.is_touching);
    assert_eq!(c.touch_start_time, None);
    assert!(c.touch_samples.is_empty());
    assert_eq!(c.step, CalibrationStep::DeviceSelection);
}

#[test]
fn other_events_are_ignored_by_the_calibration() {
    let mut c = started();
    c.record_touch(&AppEvent::Tick, 0);
    c.record_touch(&AppEvent::Key { code: 28, info: dev("a", None, None) }, 0);
    c.record_touch(&AppEvent::Mouse { x: 1, y: 1, info: dev("a", None, None) }, 0);
    c.record_touch(&AppEvent::Trackpad { event: TrackpadEvent::Click { down: true } }, 0);
    assert!(!c.is_touching);
    assert_eq!(c.touch_start_time, None);
    assert_eq!(c.step, CalibrationStep::TopLeft);
}

#[test]
fn hold_progress_and_completion() {
    let mut c = started();
    assert_eq!(c.get_hold_progress(), 0);
    assert!(!c.is_hold_complete());
    c.record_touch(&touch(5, 5, false), 1000);
    assert_eq!(c.get_hold_progress(), 0);
    c.update_hold_duration(1250);
    assert_eq!(c.get_hold_progress(), 250);
    assert!(!c.is_hold_complete());
    c.update_hold_duration(1999);
    assert_eq!(c.get_hold_progress(), 999);
    assert!(!c.is_hold_complete());
    c.update_hold_duration(2000);
    assert_eq!(c.get_hold_progress(), 1000);
    assert!(c.is_hold_complete());
    c.update_hold_duration(900000);
    assert_eq!(c.get_hold_progress(), 1000);
    assert!(c.is_hold_complete());
    // Not touching: no progress, whatever the duration says.
    c.is_touching = false;
    assert_eq!(c.get_hold_progress(), 0);
    assert!(!c.is_hold_complete());
}

#[test]
fn tick_changes_nothing_but_the_duration() {
    let mut c = started();
    // No touch: nothing to update.
    c.update_hold_duration(5000);
    assert_eq!(c.hold_duration_ms, 0);
    c.record_touch(&touch(5, 5, false), 1000);
    c.update_hold_duration(3000);
    assert_eq!(c.hold_duration_ms, 2000);
    assert_eq!(c.step, CalibrationStep::TopLeft);
    assert_eq!(c.count, 0);
    assert_eq!(c.touch_samples, vec![(5, 5)]);
    // A clock that ran backwards gives no negative duration.
    c.update_hold_duration(500);
    assert_eq!(c.hold_duration_ms, 0);
}

#[test]
fn candidates_are_collected_once_per_path() {
    let mut c = Calibration::new();
    c.note_candidate(&Some(dev("a", Some(1), None)));
    c.note_candidate(&None);
    c.note_candidate(&Some(dev("b", None, None)));
    c.note_candidate(&Some(dev("a", Some(2), None)));
    let paths: Vec<&str> = c.available_devices.iter().map(|d| d.path.as_str()).collect();
    assert_eq!(paths, vec!["a", "b"]);
    assert_eq!(c.available_devices[0].abs_x_max, Some(1));
}

#[test]
fn choosing_a_device_begins_the_calibration() {
    let mut c = Calibration::new();
    c.note_candidate(&Some(dev("a", None, None)));
    c.note_candidate(&Some(dev("b", Some(8000), Some(6000))));
    c.choose_device(2);
    assert_eq!(c.step, CalibrationStep::DeviceSelection);
    assert!(c.selected_device_path.is_none());
    c.choose_device(1);
    assert_eq!(c.step, CalibrationStep::TopLeft);
    assert_eq!(c.selected_device_index, 1);
    assert_eq!(c.selected_device_path.as_deref(), Some("b"));
    let chosen = c.selected_device_info.as_ref().unwrap();
    assert_eq!((chosen.path.as_str(), chosen.abs_x_max, chosen.abs_y_max), ("b", Some(8000), Some(6000)));
    assert!(c.listens_to(&Some(dev("b", None, None))));
    assert!(!c.listens_to(&Some(dev("a", None, None))));
    // A touch that names no device is taken.
    assert!(c.listens_to(&None));
}

#[test]
fn before_a_choice_every_device_is_listened_to() {
    let c = Calibration::new();
    assert!(c.listens_to(&Some(dev("a", None, None))));
    assert!(c.listens_to(&None));
}
