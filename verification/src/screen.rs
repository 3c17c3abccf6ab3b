//! The screens of the tool and how one leads to another.

use vstd::prelude::*;

verus! {

/// Names of the screens; `Exit` stands for leaving the tool.
#[derive(Debug, Clone, Copy, PartialEq, Eq, Structural)]
pub enum ScreenId {
    Home,
    KeyboardTest,
    MouseTest,
    TouchscreenTest,
    TrackpadTest,
    Exit,
}

/// What a screen asks for after an event: to stay, or to go to another screen.
#[derive(Debug, Clone, Copy, PartialEq, Eq, Structural)]
pub enum Nav {
    Stay,
    To(ScreenId),
}

} // verus!
