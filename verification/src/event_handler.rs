//! The normalised event type shared by every input source, the description of
//! the device an event came from, and the listener of one device.
//!
//! A listener takes the raw events of its device one by one. For a multi-touch
//! trackpad it hands them to a frame aggregator. For any other device it reads
//! them directly: a key is reported when it is pressed, relative motion as it
//! comes, and the position of a finger or stylus once per frame while it
//! touches the surface.

use vstd::prelude::*;
use crate::codes::{
    RawEvent, ABS_X, ABS_Y, BTN_TOOL_FINGER, BTN_TOOL_PEN, BTN_TOUCH, KEY_PRESSED, REL_X, REL_Y,
    SYN_REPORT,
};
use crate::machine_detect::{swaps_touch_axes, ComputerModel};
use crate::multitouch::{FrameAggregator, FrameView};
use crate::registry::ActiveDevices;
use crate::text::{contains, occurs_in};

verus! {

/// What is known about an input device at the time it is opened.
#[derive(Debug)]
pub struct DeviceInfo {
    pub path: String,
    pub name: String,
    pub abs_x_max: Option<i32>,
    pub abs_y_max: Option<i32>,
}

/// Mathematical model of a [`DeviceInfo`].
pub struct DeviceInfoView {
    pub path: Seq<char>,
    pub name: Seq<char>,
    pub abs_x_max: Option<i32>,
    pub abs_y_max: Option<i32>,
}

impl View for DeviceInfo {
    type V = DeviceInfoView;

    open spec fn view(&self) -> DeviceInfoView {
        DeviceInfoView {
            path: self.path@,
            name: self.name@,
            abs_x_max: self.abs_x_max,
            abs_y_max: self.abs_y_max,
        }
    }
}

impl Clone for DeviceInfo {
    fn clone(&self) -> (r: Self)
        ensures
            r@ == self@,
    {
        DeviceInfo {
            path: self.path.clone(),
            name: self.name.clone(),
            abs_x_max: self.abs_x_max,
            abs_y_max: self.abs_y_max,
        }
    }
}

/// The view of an optional device description.
pub open spec fn info_view(info: Option<DeviceInfo>) -> Option<DeviceInfoView> {
    match info {
        Some(i) => Some(i@),
        None => None,
    }
}

/// Copies an optional device description.
pub fn clone_info(info: &Option<DeviceInfo>) -> (r: Option<DeviceInfo>)
    ensures
        info_view(r) == info_view(*info),
{
    match info {
        Some(i) => Some(i.clone()),
        None => None,
    }
}

/// One contact on a multi-touch surface. A field the hardware has not reported
/// is absent rather than zero.
#[derive(Clone, Copy, Debug, PartialEq, Eq, Structural)]
pub struct FingerState {
    pub x: Option<i32>,
    pub y: Option<i32>,
    pub pressure: Option<i32>,
    pub major: Option<i32>,
    pub width: Option<i32>,
}

/// What a multi-touch trackpad reports at a frame boundary.
#[derive(Clone, Copy, Debug, PartialEq, Eq, Structural)]
pub enum TrackpadEvent {
    FingerUpdate { slot: usize, state: FingerState },
    FingerUp { slot: usize },
    Click { down: bool },
    FingerCount { count: usize },
}

/// A normalised input event.
#[allow(inconsistent_fields)]
#[derive(Debug)]
pub enum AppEvent {
    Key { code: u16, info: DeviceInfo },
    Mouse { x: i16, y: i16, info: DeviceInfo },
    Touch { x: u16, y: u16, timestamp: u128, released: bool, info: Option<DeviceInfo> },
    Trackpad { event: TrackpadEvent },
    Tick,
}

/// Mathematical model of an [`AppEvent`].
#[allow(inconsistent_fields)]
pub enum AppEventView {
    Key { code: u16, info: DeviceInfoView },
    Mouse { x: i16, y: i16, info: DeviceInfoView },
    Touch { x: u16, y: u16, timestamp: u128, released: bool, info: Option<DeviceInfoView> },
    Trackpad { event: TrackpadEvent },
    Tick,
}

impl View for AppEvent {
    type V = AppEventView;

    open spec fn view(&self) -> AppEventView {
        match *self {
            AppEvent::Key { code, info } => AppEventView::Key { code, info: info@ },
            AppEvent::Mouse { x, y, info } => AppEventView::Mouse { x, y, info: info@ },
            AppEvent::Touch { x, y, timestamp, released, info } => AppEventView::Touch {
                x,
                y,
                timestamp,
                released,
                info: info_view(info),
            },
            AppEvent::Trackpad { event } => AppEventView::Trackpad { event },
            AppEvent::Tick => AppEventView::Tick,
        }
    }
}

/// The views of a sequence of events, in order.
pub open spec fn event_views(events: Seq<AppEvent>) -> Seq<AppEventView> {
    events.map_values(|e: AppEvent| e@)
}

impl Clone for AppEvent {
    fn clone(&self) -> (r: Self)
        ensures
            r@ == self@,
    {
        match self {
            AppEvent::Key { code, info } => AppEvent::Key { code: *code, info: info.clone() },
            AppEvent::Mouse { x, y, info } => AppEvent::Mouse { x: *x, y: *y, info: info.clone() },
            AppEvent::Touch { x, y, timestamp, released, info } => AppEvent::Touch {
                x: *x,
                y: *y,
                timestamp: *timestamp,
                released: *released,
                info: clone_info(info),
            },
            AppEvent::Trackpad { event } => AppEvent::Trackpad { event: *event },
            AppEvent::Tick => AppEvent::Tick,
        }
    }
}

/// Part of a device name that marks a multi-touch trackpad.
pub const TRACKPAD_SIGNATURE: &'static str = "Cypress";

/// Why reading from a device or port failed, as far as this library tells
/// failures apart.
#[derive(Clone, Copy, Debug, PartialEq, Eq, Structural)]
pub enum ReadErrorKind {
    NotFound,
    TimedOut,
    Other,
    Unlisted,
}

/// A failed read: its class and the error number of the operating system, if
/// there is one.
#[derive(Clone, Copy, Debug, PartialEq, Eq, Structural)]
pub struct ReadError {
    pub kind: ReadErrorKind,
    pub raw_os_error: Option<i32>,
}

/// Error number for "no such device".
pub const ENODEV: i32 = 19;

/// Whether a failed read means that the device was unplugged. Such a failure is
/// not reported; every other one is.
pub fn is_disconnect(err: ReadError) -> (r: bool)
    ensures
        r == (err.kind == ReadErrorKind::NotFound || err.kind == ReadErrorKind::Other
            || err.raw_os_error == Some(ENODEV)),
{
    let by_number = match err.raw_os_error {
        Some(n) => n == ENODEV,
        None => false,
    };
    match err.kind {
        ReadErrorKind::NotFound => true,
        ReadErrorKind::Other => true,
        _ => by_number,
    }
}

/// The touch event for a raw coordinate pair of a device. On the one model
/// whose hardware reports the axes swapped, X and Y change places.
pub open spec fn touch_event_view(
    x: u16,
    y: u16,
    released: bool,
    info: Option<DeviceInfoView>,
    timestamp: u128,
    swap_axes: bool,
) -> AppEventView {
    if swap_axes {
        AppEventView::Touch { x: y, y: x, timestamp, released, info }
    } else {
        AppEventView::Touch { x, y, timestamp, released, info }
    }
}

/// Builds the touch event for a raw coordinate pair read at `timestamp` on a
/// computer of the given model.
pub fn get_touch_event(
    x: u16,
    y: u16,
    released: bool,
    info: Option<DeviceInfo>,
    timestamp: u128,
    model: ComputerModel,
) -> (ev: AppEvent)
    ensures
        ev@ == touch_event_view(
            x,
            y,
            released,
            info_view(info),
            timestamp,
            model == ComputerModel::DatorBBFaltGPS,
        ),
{
    if swaps_touch_axes(model) {
        AppEvent::Touch { x: y, y: x, timestamp, released, info }
    } else {
        AppEvent::Touch { x, y, timestamp, released, info }
    }
}

/// State of the listener of one device.
///
/// A device whose name carries the trackpad signature has all its events
/// gathered by a frame aggregator. Every other device is read directly: keys,
/// relative motion, and the absolute position of a finger or stylus.
#[derive(Debug)]
pub struct DeviceListener {
    pub info: DeviceInfo,
    pub model: ComputerModel,
    pub trackpad: Option<FrameAggregator>,
    pub touch_x: u16,
    pub touch_y: u16,
    pub is_touching: bool,
    pub tool_in_range: bool,
    pub coords_updated: bool,
}

/// Mathematical model of a [`DeviceListener`].
pub struct ListenerView {
    pub info: DeviceInfoView,
    pub model: ComputerModel,
    pub trackpad: Option<FrameView>,
    pub touch_x: u16,
    pub touch_y: u16,
    pub is_touching: bool,
    pub tool_in_range: bool,
    pub coords_updated: bool,
}

impl View for DeviceListener {
    type V = ListenerView;

    open spec fn view(&self) -> ListenerView {
        ListenerView {
            info: self.info@,
            model: self.model,
            trackpad: match self.trackpad {
                Some(a) => Some(a@),
                None => None,
            },
            touch_x: self.touch_x,
            touch_y: self.touch_y,
            is_touching: self.is_touching,
            tool_in_range: self.tool_in_range,
            coords_updated: self.coords_updated,
        }
    }
}

/// A trackpad event as it travels in the common stream.
pub open spec fn trackpad_event_views(events: Seq<TrackpadEvent>) -> Seq<AppEventView> {
    events.map_values(|event: TrackpadEvent| AppEventView::Trackpad { event })
}

impl ListenerView {
    /// The touch event for the current position.
    pub open spec fn touch(self, released: bool, timestamp: u128) -> AppEventView {
        touch_event_view(
            self.touch_x,
            self.touch_y,
            released,
            Some(self.info),
            timestamp,
            self.model == ComputerModel::DatorBBFaltGPS,
        )
    }

    /// The state after a raw event that is read directly.
    pub open spec fn step_direct(self, ev: RawEvent) -> ListenerView {
        match ev {
            RawEvent::Key { code, value } => if code == BTN_TOUCH {
                ListenerView { is_touching: value != 0, ..self }
            } else if code == BTN_TOOL_PEN || code == BTN_TOOL_FINGER {
                ListenerView {
                    tool_in_range: value != 0,
                    is_touching: self.is_touching && value != 0,
                    ..self
                }
            } else {
                self
            },
            RawEvent::AbsoluteAxis { code, value } => if code == ABS_X {
                ListenerView { touch_x: value as u16, coords_updated: true, ..self }
            } else if code == ABS_Y {
                ListenerView { touch_y: value as u16, coords_updated: true, ..self }
            } else {
                self
            },
            RawEvent::Synchronization { code, .. } => if code == SYN_REPORT && self.is_touching
                && self.coords_updated {
                ListenerView { coords_updated: false, ..self }
            } else {
                self
            },
            _ => self,
        }
    }

    /// What a raw event that is read directly gives rise to.
    pub open spec fn emitted_direct(self, ev: RawEvent, timestamp: u128) -> Seq<AppEventView> {
        match ev {
            RawEvent::Key { code, value } => if code == BTN_TOUCH {
                if value == 0 && self.tool_in_range {
                    seq![self.touch(true, timestamp)]
                } else {
                    Seq::empty()
                }
            } else if code == BTN_TOOL_PEN || code == BTN_TOOL_FINGER {
                if value == 0 && self.is_touching {
                    seq![self.touch(true, timestamp)]
                } else {
                    Seq::empty()
                }
            } else if value == KEY_PRESSED {
                seq![AppEventView::Key { code, info: self.info }]
            } else {
                Seq::empty()
            },
            RawEvent::RelativeAxis { code, value } => if code == REL_X {
                seq![AppEventView::Mouse { x: value as i16, y: 0, info: self.info }]
            } else if code == REL_Y {
                seq![AppEventView::Mouse { x: 0, y: value as i16, info: self.info }]
            } else {
                Seq::empty()
            },
            RawEvent::Synchronization { code, .. } => if code == SYN_REPORT && self.is_touching
                && self.coords_updated {
                seq![self.touch(false, timestamp)]
            } else {
                Seq::empty()
            },
            _ => Seq::empty(),
        }
    }

    /// The state after one raw event.
    pub open spec fn step(self, ev: RawEvent) -> ListenerView {
        match self.trackpad {
            Some(frame) => ListenerView { trackpad: Some(frame.step(ev)), ..self },
            None => self.step_direct(ev),
        }
    }

    /// What one raw event, read at `timestamp`, gives rise to.
    pub open spec fn emitted(self, ev: RawEvent, timestamp: u128) -> Seq<AppEventView> {
        match self.trackpad {
            Some(frame) => trackpad_event_views(frame.emitted(ev)),
            None => self.emitted_direct(ev, timestamp),
        }
    }
}

impl DeviceListener {
    /// The listener for a device that has just been opened on a computer of the
    /// given model.
    pub fn new(info: DeviceInfo, model: ComputerModel) -> (l: Self)
        ensures
            l@.info == info@,
            l@.model == model,
            l@.trackpad is Some <==> occurs_in(info@.name, TRACKPAD_SIGNATURE@),
            l@.trackpad is Some ==> l@.trackpad->0 == FrameAggregator::new_view(),
            l@.touch_x == 0,
            l@.touch_y == 0,
            !l@.is_touching,
            !l@.tool_in_range,
            !l@.coords_updated,
    {
        let trackpad = if contains(info.name.as_str(), TRACKPAD_SIGNATURE) {
            Some(FrameAggregator::new())
        } else {
            None
        };
        DeviceListener {
            info,
            model,
            trackpad,
            touch_x: 0,
            touch_y: 0,
            is_touching: false,
            tool_in_range: false,
            coords_updated: false,
        }
    }

    /// The touch event for the current position.
    fn touch(&self, released: bool, timestamp: u128) -> (ev: AppEvent)
        ensures
            ev@ == self@.touch(released, timestamp),
    {
        get_touch_event(
            self.touch_x,
            self.touch_y,
            released,
            Some(self.info.clone()),
            timestamp,
            self.model,
        )
    }

    /// Takes one raw event that is read directly.
    fn handle_direct(&mut self, ev: RawEvent, timestamp: u128) -> (out: Vec<AppEvent>)
        requires
            old(self).trackpad is None,
        ensures
            final(self)@ == old(self)@.step_direct(ev),
            event_views(out@) == old(self)@.emitted_direct(ev, timestamp),
    {
        let mut out: Vec<AppEvent> = Vec::new();
        match ev {
            RawEvent::Key { code, value } => {
                if code == BTN_TOUCH {
                    self.is_touching = value != 0;
                    if !self.is_touching && self.tool_in_range {
                        out.push(self.touch(true, timestamp));
                    }
                } else if code == BTN_TOOL_PEN || code == BTN_TOOL_FINGER {
                    self.tool_in_range = value != 0;
                    if !self.tool_in_range && self.is_touching {
                        self.is_touching = false;
                        out.push(self.touch(true, timestamp));
                    }
                } else if value == KEY_PRESSED {
                    out.push(AppEvent::Key { code, info: self.info.clone() });
                }
            },
            RawEvent::AbsoluteAxis { code, value } => {
                if code == ABS_X {
                    self.touch_x = #[verifier::truncate] (value as u16);
                    self.coords_updated = true;
                } else if code == ABS_Y {
                    self.touch_y = #[verifier::truncate] (value as u16);
                    self.coords_updated = true;
                }
            },
            RawEvent::RelativeAxis { code, value } => {
                if code == REL_X {
                    out.push(
                        AppEvent::Mouse {
                            x: #[verifier::truncate] (value as i16),
                            y: 0,
                            info: self.info.clone(),
                        },
                    );
                } else if code == REL_Y {
                    out.push(
                        AppEvent::Mouse {
                            x: 0,
                            y: #[verifier::truncate] (value as i16),
                            info: self.info.clone(),
                        },
                    );
                }
            },
            RawEvent::Synchronization { code, value: _ } => {
                if code == SYN_REPORT && self.is_touching && self.coords_updated {
                    out.push(self.touch(false, timestamp));
                    self.coords_updated = false;
                }
            },
            RawEvent::Other => {},
        }
        assert(event_views(out@) =~= old(self)@.emitted_direct(ev, timestamp));
        out
    }

    /// Takes one raw event of the device, read at `timestamp`. Returns the
    /// normalised events that it gives rise to, in the order they are to be
    /// published.
    pub fn handle_event(&mut self, ev: RawEvent, timestamp: u128) -> (out: Vec<AppEvent>)
        ensures
            final(self)@ == old(self)@.step(ev),
            event_views(out@) == old(self)@.emitted(ev, timestamp),
    {
        match &mut self.trackpad {
            Some(frame) => {
                let gathered = frame.handle(ev);
                wrap_trackpad_events(&gathered)
            },
            None => self.handle_direct(ev, timestamp),
        }
    }
}

/// An event as the `evdev` crate reads it from a device.
#[verifier::external_type_specification]
#[verifier::external_body]
pub struct ExInputEvent(evdev::InputEvent);

/// What `evdev::InputEvent::destructure` sorts an event as: one of the four
/// types that this library reads, with the code and the value of the event, or
/// `Other`. It depends on the event alone.
pub uninterp spec fn summary_of(event: evdev::InputEvent) -> RawEvent;

/// Sorts an event by its type. The sorting is that of
/// `evdev::InputEvent::destructure`; of the four types that this library
/// reads, the code and the value that `destructure` hands out are kept. The
/// contract claims no more than that the result is what the event is sorted
/// as, and so is the same for the same event.
#[verifier::external_body]
fn summarize(event: evdev::InputEvent) -> (raw: RawEvent)
    ensures
        raw == summary_of(event),
{
    match event.destructure() {
        evdev::EventSummary::Synchronization(_, code, value) => {
            RawEvent::Synchronization { code: code.0, value }
        },
        evdev::EventSummary::Key(_, code, value) => RawEvent::Key { code: code.0, value },
        evdev::EventSummary::RelativeAxis(_, code, value) => {
            RawEvent::RelativeAxis { code: code.0, value }
        },
        evdev::EventSummary::AbsoluteAxis(_, code, value) => {
            RawEvent::AbsoluteAxis { code: code.0, value }
        },
        _ => RawEvent::Other,
    }
}

impl DeviceListener {
    /// Takes one event as it was read from the device at `timestamp`: sorts it
    /// by its type and takes the raw event that it is sorted as, as
    /// [`DeviceListener::handle_event`] does.
    pub fn handle_input_event(&mut self, event: evdev::InputEvent, timestamp: u128) -> (out: Vec<
        AppEvent,
    >)
        ensures
            final(self)@ == old(self)@.step(summary_of(event)),
            event_views(out@) == old(self)@.emitted(summary_of(event), timestamp),
    {
        let raw = summarize(event);
        self.handle_event(raw, timestamp)
    }

    /// Ends the listener after a read of its device has failed: the path of
    /// the device leaves the set of active devices, and no other path does, so
    /// that the next scan that finds the device claims it again. Returns
    /// whether the failure is to be reported: every failure is, but one that
    /// means that the device was unplugged.
    pub fn on_read_error(self, active: &mut ActiveDevices, err: ReadError) -> (report: bool)
        requires
            old(active).wf(),
        ensures
            final(active).wf(),
            final(active)@ == old(active)@.remove(self@.info.path),
            report == !(err.kind == ReadErrorKind::NotFound || err.kind == ReadErrorKind::Other
                || err.raw_os_error == Some(ENODEV)),
    {
        active.remove(&self.info.path);
        !is_disconnect(err)
    }
}

/// Wraps trackpad events for the common stream, in order.
pub fn wrap_trackpad_events(events: &Vec<TrackpadEvent>) -> (out: Vec<AppEvent>)
    ensures
        event_views(out@) == trackpad_event_views(events@),
{
    let mut out: Vec<AppEvent> = Vec::new();
    let mut i: usize = 0;
    while i < events.len()
        invariant
            i <= events.len(),
            out@.len() == i,
            event_views(out@) == trackpad_event_views(events@.subrange(0, i as int)),
        decreases events.len() - i,
    {
        let ghost before = out@;
        out.push(AppEvent::Trackpad { event: events[i] });
        i += 1;
        assert forall|k: int| 0 <= k < i implies event_views(out@)[k] == trackpad_event_views(
            events@.subrange(0, i as int),
        )[k] by {
            if k < i - 1 {
                assert(out@[k] == before[k]);
                assert(event_views(before)[k] == trackpad_event_views(
                    events@.subrange(0, i - 1),
                )[k]);
            }
        }
        assert(event_views(out@) =~= trackpad_event_views(events@.subrange(0, i as int)));
    }
    assert(events@.subrange(0, events.len() as int) =~= events@);
    out
}

} // verus!
