//! Raw input events, and the codes of the Linux input protocol that this
//! library reads.

use vstd::prelude::*;

verus! {

/// A raw input event, sorted by its type, with the code and the value that
/// the kernel delivers. Events of the types that this library does not read
/// are all `Other`.
#[derive(Clone, Copy, Debug, PartialEq, Eq, Structural)]
pub enum RawEvent {
    Synchronization { code: u16, value: i32 },
    Key { code: u16, value: i32 },
    RelativeAxis { code: u16, value: i32 },
    AbsoluteAxis { code: u16, value: i32 },
    Other,
}

// Synchronisation codes.
pub const SYN_REPORT: u16 = 0;

// Relative axes.
pub const REL_X: u16 = 0x00;
pub const REL_Y: u16 = 0x01;

// Absolute axes.
pub const ABS_X: u16 = 0x00;
pub const ABS_Y: u16 = 0x01;
pub const ABS_MT_SLOT: u16 = 0x2f;
pub const ABS_MT_TOUCH_MAJOR: u16 = 0x30;
pub const ABS_MT_WIDTH_MAJOR: u16 = 0x32;
pub const ABS_MT_POSITION_X: u16 = 0x35;
pub const ABS_MT_POSITION_Y: u16 = 0x36;
pub const ABS_MT_TRACKING_ID: u16 = 0x39;
pub const ABS_MT_PRESSURE: u16 = 0x3a;

// Keys.
pub const KEY_ESC: u16 = 1;
pub const KEY_1: u16 = 2;
pub const KEY_2: u16 = 3;
pub const KEY_3: u16 = 4;
pub const KEY_4: u16 = 5;
pub const KEY_5: u16 = 6;
pub const KEY_6: u16 = 7;
pub const KEY_7: u16 = 8;
pub const KEY_8: u16 = 9;
pub const KEY_9: u16 = 10;
pub const KEY_Q: u16 = 16;
pub const KEY_R: u16 = 19;
pub const KEY_T: u16 = 20;
pub const KEY_ENTER: u16 = 28;
pub const KEY_LEFTCTRL: u16 = 29;
pub const KEY_C: u16 = 46;
pub const KEY_SPACE: u16 = 57;
pub const KEY_KPENTER: u16 = 96;
pub const KEY_RIGHTCTRL: u16 = 97;
pub const KEY_UP: u16 = 103;
pub const KEY_DOWN: u16 = 108;

// Buttons and tools.
pub const BTN_LEFT: u16 = 0x110;
pub const BTN_TOOL_PEN: u16 = 0x140;
pub const BTN_TOOL_FINGER: u16 = 0x145;
pub const BTN_TOUCH: u16 = 0x14a;
pub const BTN_TOOL_DOUBLETAP: u16 = 0x14d;
pub const BTN_TOOL_TRIPLETAP: u16 = 0x14e;
pub const BTN_TOOL_QUADTAP: u16 = 0x14f;

/// Value of a key event for the transition to pressed.
pub const KEY_PRESSED: i32 = 1;

impl RawEvent {
    /// Whether the event marks the end of a frame.
    pub open spec fn is_sync_report(self) -> bool {
        self matches RawEvent::Synchronization { code, .. } && code == SYN_REPORT
    }
}

} // verus!
