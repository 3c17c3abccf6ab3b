//! Input acquisition and normalisation for a hardware input-diagnostics tool.
//!
//! * [`registry`] keeps the set of input devices that have a listener and
//!   decides which of the devices that a scan finds need one.
//! * [`event_handler`] holds the normalised event type and the listener of one
//!   device, which turns raw events of the kernel into normalised ones.
//! * [`multitouch`] gathers the events of a multi-touch trackpad frame by frame.
//! * [`serial_touch`] decodes the byte stream of the serial touch panel and
//!   decides when its port is opened, read and reopened.
//! * [`calibration`] is the four-corner calibration of a touchscreen.
//! * [`machine_detect`] tells the model of the computer and what it has.
//! * [`home`], [`keyboard_test`], [`touchscreen_test`] and [`trackpad_test`]
//!   hold the state of the screens; [`canvas`] draws lines of characters.
//!
//! Nothing here reads a device, a port, a file or the clock: callers do, and
//! hand in what they have read.

pub mod calibration;
pub mod canvas;
pub mod codes;
pub mod event_handler;
pub mod home;
pub mod machine_detect;
pub mod multitouch;
pub mod registry;
pub mod screen;
pub mod serial_touch;
pub mod text;
pub mod touchscreen_test;
