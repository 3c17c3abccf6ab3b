use evdev::{AbsoluteAxisCode, KeyCode, RelativeAxisCode, SynchronizationCode};
use input_diagnostics::codes;

#[test]
fn sync_report_is_that_of_the_kernel() {
    assert_eq!(codes::SYN_REPORT, SynchronizationCode::SYN_REPORT.0);
}

#[test]
fn axis_codes_are_those_of_the_kernel() {
    assert_eq!(codes::REL_X, RelativeAxisCode::REL_X.0);
    assert_eq!(codes::REL_Y, RelativeAxisCode::REL_Y.0);
    assert_eq!(codes::ABS_X, AbsoluteAxisCode::ABS_X.0);
    assert_eq!(codes::ABS_Y, AbsoluteAxisCode::ABS_Y.0);
    assert_eq!(codes::ABS_MT_SLOT, AbsoluteAxisCode::ABS_MT_SLOT.0);
    assert_eq!(codes::ABS_MT_TOUCH_MAJOR, AbsoluteAxisCode::ABS_MT_TOUCH_MAJOR.0);
    assert_eq!(codes::ABS_MT_WIDTH_MAJOR, AbsoluteAxisCode::ABS_MT_WIDTH_MAJOR.0);
    assert_eq!(codes::ABS_MT_POSITION_X, AbsoluteAxisCode::ABS_MT_POSITION_X.0);
    assert_eq!(codes::ABS_MT_POSITION_Y, AbsoluteAxisCode::ABS_MT_POSITION_Y.0);
    assert_eq!(codes::ABS_MT_TRACKING_ID, AbsoluteAxisCode::ABS_MT_TRACKING_ID.0);
    assert_eq!(codes::ABS_MT_PRESSURE, AbsoluteAxisCode::ABS_MT_PRESSURE.0);
}

#[test]
fn key_codes_are_those_of_the_kernel() {
    let pairs = [
        (codes::KEY_ESC, KeyCode::KEY_ESC),
        (codes::KEY_1, KeyCode::KEY_1),
        (codes::KEY_2, KeyCode::KEY_2),
        (codes::KEY_3, KeyCode::KEY_3),
        (codes::KEY_4, KeyCode::KEY_4),
        (codes::KEY_5, KeyCode::KEY_5),
        (codes::KEY_6, KeyCode::KEY_6),
        (codes::KEY_7, KeyCode::KEY_7),
        (codes::KEY_8, KeyCode::KEY_8),
        (codes::KEY_9, KeyCode::KEY_9),
        (codes::KEY_Q, KeyCode::KEY_Q),
        (codes::KEY_R, KeyCode::KEY_R),
        (codes::KEY_T, KeyCode::KEY_T),
        (codes::KEY_ENTER, KeyCode::KEY_ENTER),
        (codes::KEY_LEFTCTRL, KeyCode::KEY_LEFTCTRL),
        (codes::KEY_C, KeyCode::KEY_C),
        (codes::KEY_SPACE, KeyCode::KEY_SPACE),
        (codes::KEY_KPENTER, KeyCode::KEY_KPENTER),
        (codes::KEY_RIGHTCTRL, KeyCode::KEY_RIGHTCTRL),
        (codes::KEY_UP, KeyCode::KEY_UP),
        (codes::KEY_DOWN, KeyCode::KEY_DOWN),
        (codes::BTN_LEFT, KeyCode::BTN_LEFT),
        (codes::BTN_TOOL_PEN, KeyCode::BTN_TOOL_PEN),
        (codes::BTN_TOOL_FINGER, KeyCode::BTN_TOOL_FINGER),
        (codes::BTN_TOUCH, KeyCode::BTN_TOUCH),
        (codes::BTN_TOOL_DOUBLETAP, KeyCode::BTN_TOOL_DOUBLETAP),
        (codes::BTN_TOOL_TRIPLETAP, KeyCode::BTN_TOOL_TRIPLETAP),
        (codes::BTN_TOOL_QUADTAP, KeyCode::BTN_TOOL_QUADTAP),
    ];
    for (ours, theirs) in pairs {
        assert_eq!(ours, theirs.code(), "{:?}", theirs);
    }
    assert_eq!(codes::KEY_PRESSED, 1);
}
