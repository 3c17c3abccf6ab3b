//! Four-corner touchscreen calibration.
//!
//! The user touches and holds the four corners of the screen in turn: top
//! left, top right, bottom right, bottom left. A corner is taken when the
//! touch has stayed in place for the required time and is then released; its
//! point is the mean of the samples of the hold. When the fourth corner is
//! taken the points are checked, and either the mapping from raw to calibrated
//! coordinates is fixed or the calibration starts over with an error.
//!
//! The scale of an axis is the ratio of the calibrated range to the raw span
//! and is kept as that span: mapping is exact integer arithmetic.

use vstd::prelude::*;
use vstd::string::StringExecFns;
use crate::codes::{KEY_1, KEY_9, KEY_DOWN, KEY_ENTER, KEY_KPENTER, KEY_UP};
use crate::event_handler::{info_view, AppEvent, AppEventView, DeviceInfo, DeviceInfoView};
use crate::text::{decimal, push_decimal};

verus! {

/// Smallest raw distance between the leftmost and the rightmost corner.
pub const MIN_SPAN_X: u16 = 100;

/// Smallest raw distance between the topmost and the bottommost corner.
pub const MIN_SPAN_Y: u16 = 100;

/// Smallest squared raw distance between any two corners.
pub const MIN_CORNER_DIST2: u32 = 2500;

/// Smallest squared raw length of a diagonal.
pub const MIN_DIAGONAL2: u32 = 1000;

/// Largest calibrated X.
pub const CALIBRATED_MAX_X: u16 = 999;

/// Largest calibrated Y.
pub const CALIBRATED_MAX_Y: u16 = 999;

/// How long a touch must be held for its corner to be taken, in milliseconds.
pub const REQUIRED_HOLD_MS: u128 = 1000;

/// Smallest distance, in raw units, that a held touch may move on either axis.
pub const MIN_TOLERANCE: i32 = 100;

/// A held touch may move by the device's largest coordinate divided by this:
/// 2.5 percent.
pub const TOLERANCE_DIVISOR: i32 = 40;

/// Largest coordinate assumed of a device that reports none.
pub const DEFAULT_DEVICE_MAX: i32 = 1000;

/// A raw or calibrated point: X, then Y.
pub type Point = (u16, u16);

/// Where a calibration stands: a device is being chosen, one of the four
/// corners is awaited, or the calibration is done.
#[derive(Debug, Clone, Copy, PartialEq, Eq, Structural)]
pub enum CalibrationStep {
    DeviceSelection,
    TopLeft,
    TopRight,
    BottomRight,
    BottomLeft,
    Done,
}

/// Why four corners were refused.
#[derive(Debug, Clone, Copy, PartialEq, Eq, Structural)]
pub enum CalibrationError {
    /// The corners span less than [`MIN_SPAN_X`] on the X axis.
    SpanXTooSmall { span: u16 },
    /// The corners span less than [`MIN_SPAN_Y`] on the Y axis.
    SpanYTooSmall { span: u16 },
    /// Two corners are closer than [`MIN_CORNER_DIST2`] allows.
    CornersTooClose,
    /// A diagonal is shorter than [`MIN_DIAGONAL2`] allows.
    AreaTooSmall,
}

impl CalibrationError {
    /// The text shown to the user.
    pub open spec fn message_text(self) -> Seq<char> {
        match self {
            CalibrationError::SpanXTooSmall { span } => "Calibration failed: X span too small ("@
                + decimal(span as nat) + " < "@ + decimal(MIN_SPAN_X as nat) + ")"@,
            CalibrationError::SpanYTooSmall { span } => "Calibration failed: Y span too small ("@
                + decimal(span as nat) + " < "@ + decimal(MIN_SPAN_Y as nat) + ")"@,
            CalibrationError::CornersTooClose => "Calibration failed: some samples too close together."@,
            CalibrationError::AreaTooSmall => "Calibration failed: total area too small."@,
        }
    }

    /// The text shown to the user.
    pub fn message(&self) -> (m: String)
        ensures
            m@ == self.message_text(),
    {
        match self {
            CalibrationError::SpanXTooSmall { span } => {
                let mut m = String::from_str("Calibration failed: X span too small (");
                push_decimal(&mut m, *span as u32);
                m.append(" < ");
                push_decimal(&mut m, MIN_SPAN_X as u32);
                m.append(")");
                m
            },
            CalibrationError::SpanYTooSmall { span } => {
                let mut m = String::from_str("Calibration failed: Y span too small (");
                push_decimal(&mut m, *span as u32);
                m.append(" < ");
                push_decimal(&mut m, MIN_SPAN_Y as u32);
                m.append(")");
                m
            },
            CalibrationError::CornersTooClose => String::from_str(
                "Calibration failed: some samples too close together.",
            ),
            CalibrationError::AreaTooSmall => String::from_str(
                "Calibration failed: total area too small.",
            ),
        }
    }
}

/// The smaller of two numbers.
pub open spec fn min2(a: int, b: int) -> int {
    if a <= b {
        a
    } else {
        b
    }
}

/// The larger of two numbers.
pub open spec fn max2(a: int, b: int) -> int {
    if a >= b {
        a
    } else {
        b
    }
}

/// The squared distance between two points.
pub open spec fn dist2(a: Point, b: Point) -> int {
    (a.0 - b.0) * (a.0 - b.0) + (a.1 - b.1) * (a.1 - b.1)
}

/// The four corners in the order they are taken: top left, top right, bottom
/// right, bottom left.
pub struct Corners {
    pub tl: Point,
    pub tr: Point,
    pub br: Point,
    pub bl: Point,
}

impl Corners {
    /// The corners held in an array of four points.
    pub open spec fn of(pts: Seq<Point>) -> Corners {
        Corners { tl: pts[0], tr: pts[1], br: pts[2], bl: pts[3] }
    }

    /// The least X of the four corners.
    pub open spec fn min_x(self) -> int {
        min2(min2(self.tl.0 as int, self.tr.0 as int), min2(self.br.0 as int, self.bl.0 as int))
    }

    /// The greatest X of the four corners.
    pub open spec fn max_x(self) -> int {
        max2(max2(self.tl.0 as int, self.tr.0 as int), max2(self.br.0 as int, self.bl.0 as int))
    }

    /// The least Y of the four corners.
    pub open spec fn min_y(self) -> int {
        min2(min2(self.tl.1 as int, self.tr.1 as int), min2(self.br.1 as int, self.bl.1 as int))
    }

    /// The greatest Y of the four corners.
    pub open spec fn max_y(self) -> int {
        max2(max2(self.tl.1 as int, self.tr.1 as int), max2(self.br.1 as int, self.bl.1 as int))
    }

    /// Some two corners are closer than [`MIN_CORNER_DIST2`] allows.
    pub open spec fn has_close_pair(self) -> bool {
        ||| dist2(self.tl, self.tr) < MIN_CORNER_DIST2
        ||| dist2(self.tr, self.br) < MIN_CORNER_DIST2
        ||| dist2(self.br, self.bl) < MIN_CORNER_DIST2
        ||| dist2(self.bl, self.tl) < MIN_CORNER_DIST2
        ||| dist2(self.tl, self.br) < MIN_CORNER_DIST2
        ||| dist2(self.tr, self.bl) < MIN_CORNER_DIST2
    }

    /// A diagonal is shorter than [`MIN_DIAGONAL2`] allows.
    pub open spec fn has_short_diagonal(self) -> bool {
        dist2(self.tl, self.br) < MIN_DIAGONAL2 || dist2(self.tr, self.bl) < MIN_DIAGONAL2
    }

    /// Why the corners are refused, or nothing if they are accepted. The checks
    /// are made in this order and the first that fails decides.
    pub open spec fn fault(self) -> Option<CalibrationError> {
        if self.max_x() - self.min_x() < MIN_SPAN_X {
            Some(CalibrationError::SpanXTooSmall { span: (self.max_x() - self.min_x()) as u16 })
        } else if self.max_y() - self.min_y() < MIN_SPAN_Y {
            Some(CalibrationError::SpanYTooSmall { span: (self.max_y() - self.min_y()) as u16 })
        } else if self.has_close_pair() {
            Some(CalibrationError::CornersTooClose)
        } else if self.has_short_diagonal() {
            Some(CalibrationError::AreaTooSmall)
        } else {
            None
        }
    }

    /// X runs from right to left: the top right corner lies left of the top
    /// left one.
    pub open spec fn inverts_x(self) -> bool {
        self.tr.0 < self.tl.0
    }

    /// Y runs from bottom to top: the mean Y of the bottom corners is less
    /// than the mean Y of the top corners.
    pub open spec fn inverts_y(self) -> bool {
        (self.bl.1 + self.br.1) / 2 < (self.tl.1 + self.tr.1) / 2
    }
}

/// A raw coordinate mapped onto the calibrated range `0..=target`: moved by
/// `min`, scaled by `target / max(span, 1)`, clamped to the range, and
/// reflected in the range if the axis is inverted.
pub open spec fn map_axis(raw: u16, min: u16, span: u16, invert: bool, target: u16) -> u16 {
    let scaled = ((raw - min) * target) / max2(span as int, 1);
    let clamped = clamp_to(scaled, target);
    if invert {
        (target - clamped) as u16
    } else {
        clamped as u16
    }
}

/// `v` clamped to `0..=target`.
pub open spec fn clamp_to(v: int, target: u16) -> int {
    if v < 0 {
        0
    } else if v > target {
        target as int
    } else {
        v
    }
}

/// Maps one raw coordinate; see [`map_axis`].
pub fn map_coordinate(raw: u16, min: u16, span: u16, invert: bool, target: u16) -> (r: u16)
    ensures
        r == map_axis(raw, min, span, invert, target),
        r <= target,
{
    let den: u32 = if span == 0 {
        1
    } else {
        span as u32
    };
    let clamped: u16 = if raw <= min {
        proof {
            let num = (raw - min) * target;
            assert(num <= 0) by (nonlinear_arith)
                requires
                    num == (raw - min) * target,
                    raw - min <= 0,
                    target >= 0,
            ;
            assert(num / (den as int) <= 0) by (nonlinear_arith)
                requires
                    num <= 0,
                    den > 0,
            ;
        }
        0
    } else {
        let delta: u32 = (raw - min) as u32;
        assert(delta * target <= 65535 * 65535) by (nonlinear_arith)
            requires
                delta <= 65535,
                target <= 65535,
        ;
        let scaled: u32 = delta * (target as u32) / den;
        if scaled > target as u32 {
            target
        } else {
            scaled as u16
        }
    };
    if invert {
        target - clamped
    } else {
        clamped
    }
}

/// Clamping a value that is already clamped changes nothing.
pub proof fn lemma_clamp_idempotent(v: int, target: u16)
    ensures
        clamp_to(clamp_to(v, target), target) == clamp_to(v, target),
        0 <= clamp_to(v, target) <= target,
{
}

/// The raw minimum of an axis maps to the low end of the calibrated range, or
/// to its high end if the axis is inverted; every raw value maps into the
/// range.
pub proof fn lemma_map_axis_origin(raw: u16, min: u16, span: u16, target: u16)
    ensures
        map_axis(min, min, span, false, target) == 0,
        map_axis(min, min, span, true, target) == target,
        map_axis(raw, min, span, false, target) <= target,
        map_axis(raw, min, span, true, target) <= target,
        map_axis(raw, min, span, true, target) == target - map_axis(raw, min, span, false, target),
{
    let den = max2(span as int, 1);
    assert(((min - min) * target) / den == 0) by (nonlinear_arith)
        requires
            den > 0,
    ;
}

/// Where the scale is one, the offset zero and the axis not inverted, mapping
/// only clamps: a value that has been mapped maps to itself.
pub proof fn lemma_map_axis_idempotent(raw: u16, target: u16)
    requires
        target > 0,
    ensures
        map_axis(raw, 0, target, false, target) == clamp_to(raw as int, target),
        map_axis(map_axis(raw, 0, target, false, target), 0, target, false, target) == map_axis(
            raw,
            0,
            target,
            false,
            target,
        ),
{
    lemma_scale_one(raw as int, target as int);
    let once = map_axis(raw, 0, target, false, target);
    lemma_scale_one(once as int, target as int);
}

/// Scaling by one changes nothing.
proof fn lemma_scale_one(v: int, t: int)
    by (nonlinear_arith)
    requires
        t > 0,
    ensures
        (v * t) / t == v,
        ((v - 0) * t) / t == v,
{
}

/// The sum of the X coordinates of `samples`.
pub open spec fn sum_x(samples: Seq<Point>) -> int
    decreases samples.len(),
{
    if samples.len() == 0 {
        0
    } else {
        sum_x(samples.drop_last()) + samples.last().0
    }
}

/// The sum of the Y coordinates of `samples`.
pub open spec fn sum_y(samples: Seq<Point>) -> int
    decreases samples.len(),
{
    if samples.len() == 0 {
        0
    } else {
        sum_y(samples.drop_last()) + samples.last().1
    }
}

/// The arithmetic mean of `samples`, each coordinate rounded down.
pub open spec fn mean_point(samples: Seq<Point>) -> Point {
    ((sum_x(samples) / samples.len() as int) as u16, (sum_y(samples) / samples.len() as int) as u16)
}

/// The sums of the coordinates are bounded by the number of samples.
pub proof fn lemma_sums_bounded(samples: Seq<Point>)
    ensures
        0 <= sum_x(samples) <= samples.len() * 65535,
        0 <= sum_y(samples) <= samples.len() * 65535,
    decreases samples.len(),
{
    if samples.len() > 0 {
        lemma_sums_bounded(samples.drop_last());
        assert(samples.len() * 65535 == (samples.len() - 1) * 65535 + 65535) by (nonlinear_arith);
    }
}

/// The largest coordinate that a device reports on either axis, or
/// [`DEFAULT_DEVICE_MAX`] if it reports none.
pub open spec fn device_max(info: DeviceInfoView) -> int {
    match (info.abs_x_max, info.abs_y_max) {
        (Some(a), Some(b)) => max2(a as int, b as int),
        (Some(a), None) => a as int,
        (None, Some(b)) => b as int,
        (None, None) => DEFAULT_DEVICE_MAX as int,
    }
}

/// How far a held touch may move on either axis before the hold starts over:
/// 2.5 percent of the largest coordinate of the chosen device, and at least
/// [`MIN_TOLERANCE`].
pub open spec fn movement_tolerance(info: Option<DeviceInfoView>) -> int {
    match info {
        Some(d) => max2(device_max(d) / (TOLERANCE_DIVISOR as int), MIN_TOLERANCE as int),
        None => MIN_TOLERANCE as int,
    }
}

/// Position of a corner in the order the corners are taken.
pub open spec fn corner_index(step: CalibrationStep) -> int {
    match step {
        CalibrationStep::TopRight => 1,
        CalibrationStep::BottomRight => 2,
        CalibrationStep::BottomLeft => 3,
        _ => 0,
    }
}

/// The step that follows when the corner of `step` has been taken.
pub open spec fn next_step(step: CalibrationStep) -> CalibrationStep {
    match step {
        CalibrationStep::DeviceSelection => CalibrationStep::DeviceSelection,
        CalibrationStep::TopLeft => CalibrationStep::TopRight,
        CalibrationStep::TopRight => CalibrationStep::BottomRight,
        CalibrationStep::BottomRight => CalibrationStep::BottomLeft,
        CalibrationStep::BottomLeft => CalibrationStep::Done,
        CalibrationStep::Done => CalibrationStep::Done,
    }
}

/// State of a calibration.
#[derive(Debug)]
pub struct Calibration {
    pub step: CalibrationStep,
    /// The corners taken so far, in the order top left, top right, bottom
    /// right, bottom left.
    pub pts: [Point; 4],
    pub count: usize,
    pub min_x: u16,
    pub max_x: u16,
    pub min_y: u16,
    pub max_y: u16,
    pub invert_x: bool,
    pub invert_y: bool,
    /// The raw span that maps onto the whole calibrated X range.
    pub span_x: u16,
    /// The raw span that maps onto the whole calibrated Y range.
    pub span_y: u16,
    pub is_touching: bool,
    pub error: Option<CalibrationError>,
    pub touch_start_time: Option<u128>,
    pub touch_start_pos: Option<Point>,
    pub hold_duration_ms: u128,
    pub touch_samples: Vec<Point>,
    pub available_devices: Vec<DeviceInfo>,
    pub selected_device_index: usize,
    pub selected_device_path: Option<String>,
    pub selected_device_info: Option<DeviceInfo>,
}

/// Mathematical model of a [`Calibration`].
pub struct CalibrationView {
    pub step: CalibrationStep,
    pub pts: Seq<Point>,
    pub count: usize,
    pub min_x: u16,
    pub max_x: u16,
    pub min_y: u16,
    pub max_y: u16,
    pub invert_x: bool,
    pub invert_y: bool,
    pub span_x: u16,
    pub span_y: u16,
    pub is_touching: bool,
    pub error: Option<CalibrationError>,
    pub touch_start_time: Option<u128>,
    pub touch_start_pos: Option<Point>,
    pub hold_duration_ms: u128,
    pub touch_samples: Seq<Point>,
    pub available_devices: Seq<DeviceInfoView>,
    pub selected_device_index: usize,
    pub selected_device_path: Option<Seq<char>>,
    pub selected_device_info: Option<DeviceInfoView>,
}

/// The views of a list of devices, in order.
pub open spec fn device_views(devices: Seq<DeviceInfo>) -> Seq<DeviceInfoView> {
    devices.map_values(|d: DeviceInfo| d@)
}

/// The view of an optional path.
pub open spec fn path_view(path: Option<String>) -> Option<Seq<char>> {
    match path {
        Some(p) => Some(p@),
        None => None,
    }
}

impl View for Calibration {
    type V = CalibrationView;

    open spec fn view(&self) -> CalibrationView {
        CalibrationView {
            step: self.step,
            pts: self.pts@,
            count: self.count,
            min_x: self.min_x,
            max_x: self.max_x,
            min_y: self.min_y,
            max_y: self.max_y,
            invert_x: self.invert_x,
            invert_y: self.invert_y,
            span_x: self.span_x,
            span_y: self.span_y,
            is_touching: self.is_touching,
            error: self.error,
            touch_start_time: self.touch_start_time,
            touch_start_pos: self.touch_start_pos,
            hold_duration_ms: self.hold_duration_ms,
            touch_samples: self.touch_samples@,
            available_devices: device_views(self.available_devices@),
            selected_device_index: self.selected_device_index,
            selected_device_path: path_view(self.selected_device_path),
            selected_device_info: info_view(self.selected_device_info),
        }
    }
}

impl CalibrationView {
    /// The state of a calibration that has just begun: a device is yet to be
    /// chosen, no corner is taken, and raw coordinates map to themselves,
    /// clamped.
    pub open spec fn initial() -> CalibrationView {
        CalibrationView {
            step: CalibrationStep::DeviceSelection,
            pts: seq![(0u16, 0u16), (0u16, 0u16), (0u16, 0u16), (0u16, 0u16)],
            count: 0,
            min_x: 0,
            max_x: u16::MAX,
            min_y: 0,
            max_y: u16::MAX,
            invert_x: false,
            invert_y: false,
            span_x: CALIBRATED_MAX_X,
            span_y: CALIBRATED_MAX_Y,
            is_touching: false,
            error: None,
            touch_start_time: None,
            touch_start_pos: None,
            hold_duration_ms: 0,
            touch_samples: Seq::empty(),
            available_devices: Seq::empty(),
            selected_device_index: 0,
            selected_device_path: None,
            selected_device_info: None,
        }
    }

    /// The state after the four corners have been checked: the error, if they
    /// are refused; else the mapping they define, and no error.
    pub open spec fn finalized(self) -> CalibrationView {
        let c = Corners::of(self.pts);
        match c.fault() {
            Some(e) => CalibrationView { error: Some(e), ..self },
            None => CalibrationView {
                min_x: c.min_x() as u16,
                max_x: c.max_x() as u16,
                min_y: c.min_y() as u16,
                max_y: c.max_y() as u16,
                invert_x: c.inverts_x(),
                invert_y: c.inverts_y(),
                span_x: max2(c.max_x() - c.min_x(), 1) as u16,
                span_y: max2(c.max_y() - c.min_y(), 1) as u16,
                error: None,
                ..self
            },
        }
    }

    /// A raw point mapped to calibrated coordinates.
    pub open spec fn map(self, raw_x: u16, raw_y: u16) -> Point {
        (
            map_axis(raw_x, self.min_x, self.span_x, self.invert_x, CALIBRATED_MAX_X),
            map_axis(raw_y, self.min_y, self.span_y, self.invert_y, CALIBRATED_MAX_Y),
        )
    }

    /// A touch at `(x, y)` has moved too far from where the hold began.
    pub open spec fn moved_too_far(self, start: Point, x: u16, y: u16) -> bool {
        let t = movement_tolerance(self.selected_device_info);
        x - start.0 > t || start.0 - x > t || y - start.1 > t || start.1 - y > t
    }

    /// The state after a hold has begun at `(x, y)` at time `now`.
    pub open spec fn begin_hold(self, x: u16, y: u16, now: u128) -> CalibrationView {
        CalibrationView {
            is_touching: true,
            touch_start_time: Some(now),
            touch_start_pos: Some((x, y)),
            hold_duration_ms: 0,
            touch_samples: seq![(x, y)],
            ..self
        }
    }

    /// The state after a sample of an active touch: the first sample begins a
    /// hold; one that has moved too far begins a new hold; any other is kept.
    pub open spec fn touched(self, x: u16, y: u16, now: u128) -> CalibrationView {
        if self.touch_start_time is None {
            self.begin_hold(x, y, now)
        } else {
            match self.touch_start_pos {
                Some(start) => if self.moved_too_far(start, x, y) {
                    self.begin_hold(x, y, now)
                } else {
                    CalibrationView {
                        is_touching: true,
                        touch_samples: self.touch_samples.push((x, y)),
                        ..self
                    }
                },
                None => CalibrationView { is_touching: true, ..self },
            }
        }
    }

    /// The hold has lasted the required time and has samples.
    pub open spec fn hold_is_long_enough(self) -> bool {
        self.hold_duration_ms >= REQUIRED_HOLD_MS && self.touch_samples.len() > 0
    }

    /// The state after the corner of the current step has been taken as the
    /// mean of the samples. Taking the fourth corner checks the corners; if
    /// they are refused the calibration starts over at the first corner and
    /// keeps the error.
    pub open spec fn corner_taken(self) -> CalibrationView {
        let i = corner_index(self.step);
        let placed = CalibrationView {
            pts: self.pts.update(i, mean_point(self.touch_samples)),
            count: (i + 1) as usize,
            step: next_step(self.step),
            ..self
        };
        if placed.step == CalibrationStep::Done {
            let checked = placed.finalized();
            if checked.error is Some {
                CalibrationView { step: CalibrationStep::TopLeft, count: 0, ..checked }
            } else {
                checked
            }
        } else {
            placed
        }
    }

    /// The state after the touch has been released: the corner is taken if the
    /// hold was long enough, and the hold is over.
    pub open spec fn released(self) -> CalibrationView {
        let base = if self.hold_is_long_enough() {
            self.corner_taken()
        } else {
            self
        };
        CalibrationView {
            is_touching: false,
            touch_start_time: None,
            touch_start_pos: None,
            hold_duration_ms: 0,
            touch_samples: Seq::empty(),
            ..base
        }
    }

    /// The state after a touch sample. While a device is being chosen and when
    /// the calibration is done, samples change nothing.
    pub open spec fn after_touch(self, x: u16, y: u16, released: bool, now: u128) -> CalibrationView {
        if self.step == CalibrationStep::Done || self.step == CalibrationStep::DeviceSelection {
            self
        } else if released {
            self.released()
        } else {
            self.touched(x, y, now)
        }
    }

    /// The state after an event; only touch events change it.
    pub open spec fn record(self, ev: AppEventView, now: u128) -> CalibrationView {
        match ev {
            AppEventView::Touch { x, y, released, .. } => self.after_touch(x, y, released, now),
            _ => self,
        }
    }

    /// The state after a tick at time `now`: while touching, the hold has
    /// lasted since it began.
    pub open spec fn ticked(self, now: u128) -> CalibrationView {
        match self.touch_start_time {
            Some(start) => if self.is_touching {
                CalibrationView {
                    hold_duration_ms: if now >= start {
                        (now - start) as u128
                    } else {
                        0
                    },
                    ..self
                }
            } else {
                self
            },
            None => self,
        }
    }

    /// How much of the required hold has passed, in thousandths.
    pub open spec fn hold_progress(self) -> int {
        if self.is_touching {
            min2(self.hold_duration_ms as int, REQUIRED_HOLD_MS as int)
        } else {
            0
        }
    }
}

/// The squared distance between two points.
fn squared_distance(a: Point, b: Point) -> (d: u64)
    ensures
        d == dist2(a, b),
{
    let dx: i64 = a.0 as i64 - b.0 as i64;
    let dy: i64 = a.1 as i64 - b.1 as i64;
    assert(0 <= dx * dx <= 65535 * 65535) by (nonlinear_arith)
        requires
            -65535 <= dx <= 65535,
    ;
    assert(0 <= dy * dy <= 65535 * 65535) by (nonlinear_arith)
        requires
            -65535 <= dy <= 65535,
    ;
    (dx * dx + dy * dy) as u64
}

/// The smaller of two coordinates.
fn lesser(a: u16, b: u16) -> (r: u16)
    ensures
        r == min2(a as int, b as int),
{
    if a <= b {
        a
    } else {
        b
    }
}

/// The larger of two coordinates.
fn greater(a: u16, b: u16) -> (r: u16)
    ensures
        r == max2(a as int, b as int),
{
    if a >= b {
        a
    } else {
        b
    }
}

/// The arithmetic mean of `samples`, each coordinate rounded down.
fn mean_of(samples: &Vec<Point>) -> (m: Point)
    requires
        samples@.len() > 0,
    ensures
        m == mean_point(samples@),
{
    let mut total_x: u128 = 0;
    let mut total_y: u128 = 0;
    let mut i: usize = 0;
    while i < samples.len()
        invariant
            i <= samples.len(),
            total_x == sum_x(samples@.subrange(0, i as int)),
            total_y == sum_y(samples@.subrange(0, i as int)),
        decreases samples.len() - i,
    {
        proof {
            lemma_sums_bounded(samples@.subrange(0, i as int));
            assert(i * 65535 <= 0xffff_ffff_ffff_ffff * 65535) by (nonlinear_arith)
                requires
                    i <= 0xffff_ffff_ffff_ffff,
            ;
            assert(samples@.subrange(0, i + 1).drop_last() =~= samples@.subrange(0, i as int));
        }
        let p: Point = samples[i];
        total_x = total_x + p.0 as u128;
        total_y = total_y + p.1 as u128;
        i += 1;
    }
    proof {
        assert(samples@.subrange(0, samples.len() as int) =~= samples@);
        lemma_sums_bounded(samples@);
        lemma_mean_fits(sum_x(samples@), samples@.len() as int);
        lemma_mean_fits(sum_y(samples@), samples@.len() as int);
    }
    let n: u128 = samples.len() as u128;
    ((total_x / n) as u16, (total_y / n) as u16)
}

/// The mean of numbers that fit in 16 bits fits in 16 bits.
proof fn lemma_mean_fits(total: int, n: int)
    by (nonlinear_arith)
    requires
        n > 0,
        0 <= total <= n * 65535,
    ensures
        0 <= total / n <= 65535,
{
}

/// How far a held touch may move; see [`movement_tolerance`].
fn tolerance_for(info: &Option<DeviceInfo>) -> (t: i32)
    ensures
        t == movement_tolerance(info_view(*info)),
        t >= MIN_TOLERANCE,
{
    match info {
        Some(d) => {
            let largest: i32 = match (d.abs_x_max, d.abs_y_max) {
                (Some(a), Some(b)) => if a >= b {
                    a
                } else {
                    b
                },
                (Some(a), None) => a,
                (None, Some(b)) => b,
                (None, None) => DEFAULT_DEVICE_MAX,
            };
            if largest < MIN_TOLERANCE * TOLERANCE_DIVISOR {
                MIN_TOLERANCE
            } else {
                largest / TOLERANCE_DIVISOR
            }
        },
        None => MIN_TOLERANCE,
    }
}

impl Calibration {
    /// A calibration that has just begun.
    pub fn new() -> (c: Self)
        ensures
            c@ == CalibrationView::initial(),
    {
        let c = Calibration {
            step: CalibrationStep::DeviceSelection,
            pts: [(0, 0); 4],
            count: 0,
            min_x: 0,
            max_x: u16::MAX,
            min_y: 0,
            max_y: u16::MAX,
            invert_x: false,
            invert_y: false,
            span_x: CALIBRATED_MAX_X,
            span_y: CALIBRATED_MAX_Y,
            is_touching: false,
            error: None,
            touch_start_time: None,
            touch_start_pos: None,
            hold_duration_ms: 0,
            touch_samples: Vec::new(),
            available_devices: Vec::new(),
            selected_device_index: 0,
            selected_device_path: None,
            selected_device_info: None,
        };
        assert(c@.pts =~= CalibrationView::initial().pts);
        assert(c@.touch_samples =~= CalibrationView::initial().touch_samples);
        assert(c@.available_devices =~= CalibrationView::initial().available_devices);
        c
    }

    /// Checks the four corners. If they are refused, records why and changes
    /// nothing else. If they are accepted, fixes the mapping they define and
    /// clears the error.
    pub fn finalize(&mut self)
        ensures
            final(self)@ == old(self)@.finalized(),
    {
        let tl: Point = self.pts[0];
        let tr: Point = self.pts[1];
        let br: Point = self.pts[2];
        let bl: Point = self.pts[3];
        let ghost c = Corners::of(self.pts@);
        let min_x: u16 = lesser(lesser(tl.0, tr.0), lesser(br.0, bl.0));
        let max_x: u16 = greater(greater(tl.0, tr.0), greater(br.0, bl.0));
        let min_y: u16 = lesser(lesser(tl.1, tr.1), lesser(br.1, bl.1));
        let max_y: u16 = greater(greater(tl.1, tr.1), greater(br.1, bl.1));
        assert(min_x == c.min_x() && max_x == c.max_x() && min_y == c.min_y() && max_y
            == c.max_y());
        if max_x - min_x < MIN_SPAN_X {
            self.error = Some(CalibrationError::SpanXTooSmall { span: max_x - min_x });
            return ;
        }
        if max_y - min_y < MIN_SPAN_Y {
            self.error = Some(CalibrationError::SpanYTooSmall { span: max_y - min_y });
            return ;
        }
        let first_diagonal: u64 = squared_distance(tl, br);
        let second_diagonal: u64 = squared_distance(tr, bl);
        if squared_distance(tl, tr) < MIN_CORNER_DIST2 as u64 || squared_distance(tr, br)
            < MIN_CORNER_DIST2 as u64 || squared_distance(br, bl) < MIN_CORNER_DIST2 as u64
            || squared_distance(bl, tl) < MIN_CORNER_DIST2 as u64 || first_diagonal
            < MIN_CORNER_DIST2 as u64 || second_diagonal < MIN_CORNER_DIST2 as u64 {
            self.error = Some(CalibrationError::CornersTooClose);
            return ;
        }
        if first_diagonal < MIN_DIAGONAL2 as u64 || second_diagonal < MIN_DIAGONAL2 as u64 {
            self.error = Some(CalibrationError::AreaTooSmall);
            return ;
        }
        self.min_x = min_x;
        self.max_x = max_x;
        self.min_y = min_y;
        self.max_y = max_y;
        self.invert_x = tr.0 < tl.0;
        self.invert_y = (bl.1 as u32 + br.1 as u32) / 2 < (tl.1 as u32 + tr.1 as u32) / 2;
        self.span_x = greater(max_x - min_x, 1);
        self.span_y = greater(max_y - min_y, 1);
        self.error = None;
    }

    /// Whether the calibration is done.
    pub fn is_done(&self) -> (r: bool)
        ensures
            r == (self@.step == CalibrationStep::Done),
    {
        match self.step {
            CalibrationStep::Done => true,
            _ => false,
        }
    }

    /// How much of the required hold has passed, in thousandths: 0 while
    /// nothing is touching, 1000 once the hold is complete.
    pub fn get_hold_progress(&self) -> (r: u16)
        ensures
            r == self@.hold_progress(),
            r <= 1000,
    {
        if self.is_touching {
            if self.hold_duration_ms >= REQUIRED_HOLD_MS {
                1000
            } else {
                self.hold_duration_ms as u16
            }
        } else {
            0
        }
    }

    /// Whether a touch is being held and has been held for the required time.
    pub fn is_hold_complete(&self) -> (r: bool)
        ensures
            r == (self@.is_touching && self@.hold_duration_ms >= REQUIRED_HOLD_MS),
    {
        self.is_touching && self.hold_duration_ms >= REQUIRED_HOLD_MS
    }

    /// Brings the duration of the hold up to the time `now`. Changes nothing
    /// while no touch is being held.
    pub fn update_hold_duration(&mut self, now: u128)
        ensures
            final(self)@ == old(self)@.ticked(now),
    {
        if self.is_touching {
            if let Some(start) = self.touch_start_time {
                self.hold_duration_ms = if now >= start {
                    now - start
                } else {
                    0
                };
            }
        }
    }

    /// Maps a raw point to calibrated coordinates. Changes nothing.
    pub fn map(&self, raw_x: u16, raw_y: u16) -> (p: Point)
        ensures
            p == self@.map(raw_x, raw_y),
            p.0 <= CALIBRATED_MAX_X,
            p.1 <= CALIBRATED_MAX_Y,
    {
        (
            map_coordinate(raw_x, self.min_x, self.span_x, self.invert_x, CALIBRATED_MAX_X),
            map_coordinate(raw_y, self.min_y, self.span_y, self.invert_y, CALIBRATED_MAX_Y),
        )
    }

    /// Begins a hold at `(x, y)` at time `now`.
    fn begin_hold(&mut self, x: u16, y: u16, now: u128)
        ensures
            final(self)@ == old(self)@.begin_hold(x, y, now),
    {
        self.is_touching = true;
        self.touch_start_time = Some(now);
        self.touch_start_pos = Some((x, y));
        self.hold_duration_ms = 0;
        self.touch_samples.clear();
        self.touch_samples.push((x, y));
        assert(self@.touch_samples =~= seq![(x, y)]);
    }

    /// Takes the corner of the current step as the mean of the samples.
    fn take_corner(&mut self)
        requires
            old(self).touch_samples@.len() > 0,
            old(self).step != CalibrationStep::Done,
            old(self).step != CalibrationStep::DeviceSelection,
        ensures
            final(self)@ == old(self)@.corner_taken(),
    {
        let mean = mean_of(&self.touch_samples);
        match self.step {
            CalibrationStep::TopLeft => {
                self.pts[0] = mean;
                self.count = 1;
                self.step = CalibrationStep::TopRight;
            },
            CalibrationStep::TopRight => {
                self.pts[1] = mean;
                self.count = 2;
                self.step = CalibrationStep::BottomRight;
            },
            CalibrationStep::BottomRight => {
                self.pts[2] = mean;
                self.count = 3;
                self.step = CalibrationStep::BottomLeft;
            },
            _ => {
                self.pts[3] = mean;
                self.count = 4;
                self.step = CalibrationStep::Done;
                self.finalize();
                if self.error.is_some() {
                    self.step = CalibrationStep::TopLeft;
                    self.count = 0;
                }
            },
        }
    }

    /// Takes one event at time `now`. A sample of an active touch begins a
    /// hold, continues it, or begins it anew if the touch has moved too far.
    /// A release takes the corner if the hold was long enough, and ends the
    /// hold. Events that are no touch events, and touch events while a device
    /// is being chosen or after the calibration is done, change nothing.
    pub fn record_touch(&mut self, touch_event: &AppEvent, now: u128)
        ensures
            final(self)@ == old(self)@.record(touch_event@, now),
    {
        if let AppEvent::Touch { x, y, timestamp: _, released, info: _ } = touch_event {
            match self.step {
                CalibrationStep::Done => {
                    return ;
                },
                CalibrationStep::DeviceSelection => {
                    return ;
                },
                _ => {},
            }
            if !*released {
                if self.touch_start_time.is_none() {
                    self.begin_hold(*x, *y, now);
                } else if let Some(start) = self.touch_start_pos {
                    let dx: i32 = *x as i32 - start.0 as i32;
                    let dy: i32 = *y as i32 - start.1 as i32;
                    let t: i32 = tolerance_for(&self.selected_device_info);
                    if dx > t || -dx > t || dy > t || -dy > t {
                        self.begin_hold(*x, *y, now);
                    } else {
                        self.is_touching = true;
                        self.touch_samples.push((*x, *y));
                    }
                } else {
                    self.is_touching = true;
                }
                return ;
            }
            if self.hold_duration_ms >= REQUIRED_HOLD_MS && self.touch_samples.len() > 0 {
                self.take_corner();
            }
            self.is_touching = false;
            self.touch_start_time = None;
            self.touch_start_pos = None;
            self.hold_duration_ms = 0;
            self.touch_samples.clear();
            assert(self@.touch_samples =~= Seq::<Point>::empty());
        }
    }
}

/// The raw minimum of both axes maps to the corner of the calibrated range
/// that the inversions point to: `(0, 0)` without inversion, the far end of
/// each axis that is inverted. Every raw point maps into the calibrated range.
pub proof fn lemma_map_of_minimum(c: CalibrationView, raw_x: u16, raw_y: u16)
    ensures
        c.map(c.min_x, c.min_y) == (
            if c.invert_x {
                CALIBRATED_MAX_X
            } else {
                0u16
            },
            if c.invert_y {
                CALIBRATED_MAX_Y
            } else {
                0u16
            },
        ),
        c.map(raw_x, raw_y).0 <= CALIBRATED_MAX_X,
        c.map(raw_x, raw_y).1 <= CALIBRATED_MAX_Y,
{
    lemma_map_axis_origin(raw_x, c.min_x, c.span_x, CALIBRATED_MAX_X);
    lemma_map_axis_origin(raw_y, c.min_y, c.span_y, CALIBRATED_MAX_Y);
}

/// Mapping a point that has been mapped gives the same point again, where
/// mapping only clamps: the minimum of each axis is zero, its span is the
/// calibrated range, and it is not inverted.
pub proof fn lemma_map_idempotent(c: CalibrationView, raw_x: u16, raw_y: u16)
    requires
        c.min_x == 0 && c.span_x == CALIBRATED_MAX_X && !c.invert_x,
        c.min_y == 0 && c.span_y == CALIBRATED_MAX_Y && !c.invert_y,
    ensures
        c.map(c.map(raw_x, raw_y).0, c.map(raw_x, raw_y).1) == c.map(raw_x, raw_y),
        c.map(raw_x, raw_y) == (
            clamp_to(raw_x as int, CALIBRATED_MAX_X) as u16,
            clamp_to(raw_y as int, CALIBRATED_MAX_Y) as u16,
        ),
{
    lemma_map_axis_idempotent(raw_x, CALIBRATED_MAX_X);
    lemma_map_axis_idempotent(raw_y, CALIBRATED_MAX_Y);
}

/// A release after a hold shorter than the required time takes no corner:
/// the step, the corners, their count and the mapping stay as they were.
pub proof fn lemma_short_hold_takes_nothing(c: CalibrationView, x: u16, y: u16, now: u128)
    requires
        c.hold_duration_ms < REQUIRED_HOLD_MS,
    ensures
        c.after_touch(x, y, true, now).step == c.step,
        c.after_touch(x, y, true, now).pts == c.pts,
        c.after_touch(x, y, true, now).count == c.count,
        c.after_touch(x, y, true, now).error == c.error,
        c.after_touch(x, y, true, now).map(x, y) == c.map(x, y),
{
}

/// Four corners with a diagonal shorter than [`MIN_DIAGONAL2`] allows are
/// refused, whatever else holds of them.
pub proof fn lemma_short_diagonal_refused(c: Corners)
    requires
        c.has_short_diagonal(),
    ensures
        c.fault() is Some,
{
}

/// A diagonal that is too short is also a pair of corners that are too close:
/// corners are never refused for their area alone.
pub proof fn lemma_area_never_decides(c: Corners)
    ensures
        c.has_short_diagonal() ==> c.has_close_pair(),
        c.fault() != Some(CalibrationError::AreaTooSmall),
{
}

/// An error stays until four corners are accepted: an event clears it only by
/// completing the calibration, and replaces it only when the fourth corner is
/// taken and refused again.
pub proof fn lemma_error_kept_until_success(c: CalibrationView, ev: AppEventView, now: u128)
    requires
        c.error is Some,
    ensures
        c.record(ev, now).error is None ==> c.record(ev, now).step == CalibrationStep::Done && c.step
            == CalibrationStep::BottomLeft,
        c.record(ev, now).error != c.error ==> c.step == CalibrationStep::BottomLeft,
        c.step == CalibrationStep::BottomLeft && c.record(ev, now).step != CalibrationStep::Done
            ==> c.record(ev, now).error is Some,
{
}

/// When the fourth corner is taken and the corners are refused, the
/// calibration starts over at the first corner with no corner counted, and
/// holds the reason.
pub proof fn lemma_refused_corners_restart(c: CalibrationView)
    requires
        c.step == CalibrationStep::BottomLeft,
        c.hold_is_long_enough(),
        Corners::of(c.pts.update(3, mean_point(c.touch_samples))).fault() is Some,
    ensures
        c.released().step == CalibrationStep::TopLeft,
        c.released().count == 0,
        c.released().error == Corners::of(c.pts.update(3, mean_point(c.touch_samples))).fault(),
{
}

/// Whether one of `devices` has the path `path`.
pub open spec fn knows_path(devices: Seq<DeviceInfoView>, path: Seq<char>) -> bool {
    exists|k: int| 0 <= k < devices.len() && #[trigger] devices[k].path == path
}

/// The position that the key `code` chooses at once: 0 for the key 1, up to 8
/// for the key 9.
pub open spec fn quick_index(code: u16) -> Option<usize> {
    if KEY_1 <= code <= KEY_9 {
        Some((code - KEY_1) as usize)
    } else {
        None
    }
}

impl CalibrationView {
    /// The state after a touch of the device `info` while a device is being
    /// chosen: the device joins the candidates unless one of them has its path.
    pub open spec fn candidate_seen(self, info: Option<DeviceInfoView>) -> CalibrationView {
        match info {
            Some(d) => if knows_path(self.available_devices, d.path) {
                self
            } else {
                CalibrationView { available_devices: self.available_devices.push(d), ..self }
            },
            None => self,
        }
    }

    /// Whether a touch of the device `info` is taken: once a device is chosen,
    /// touches of every other device that names itself are ignored.
    pub open spec fn listens_to(self, info: Option<DeviceInfoView>) -> bool {
        match (self.selected_device_path, info) {
            (Some(chosen), Some(d)) => d.path == chosen,
            _ => true,
        }
    }

    /// The state after the candidate at position `i` has been chosen; unchanged
    /// if there is none.
    pub open spec fn chosen(self, i: int) -> CalibrationView {
        if 0 <= i < self.available_devices.len() {
            CalibrationView {
                selected_device_index: i as usize,
                selected_device_path: Some(self.available_devices[i].path),
                selected_device_info: Some(self.available_devices[i]),
                step: CalibrationStep::TopLeft,
                ..self
            }
        } else {
            self
        }
    }

    /// The state after a key while a device is being chosen: up and down move
    /// the mark and wrap around, enter chooses the marked candidate, a digit
    /// chooses the candidate of that number.
    pub open spec fn selection_key(self, code: u16) -> CalibrationView {
        let n = self.available_devices.len() as int;
        if code == KEY_UP {
            if n > 0 {
                CalibrationView {
                    selected_device_index: ((self.selected_device_index + n - 1) % n) as usize,
                    ..self
                }
            } else {
                self
            }
        } else if code == KEY_DOWN {
            if n > 0 {
                CalibrationView {
                    selected_device_index: ((self.selected_device_index + 1) % n) as usize,
                    ..self
                }
            } else {
                self
            }
        } else if code == KEY_ENTER || code == KEY_KPENTER {
            self.chosen(self.selected_device_index as int)
        } else {
            match quick_index(code) {
                Some(i) => self.chosen(i as int),
                None => self,
            }
        }
    }
}

impl Calibration {
    /// Whether one of the candidates has the path of `info`.
    fn knows(&self, info: &DeviceInfo) -> (r: bool)
        ensures
            r == knows_path(self@.available_devices, info@.path),
    {
        let mut k: usize = 0;
        while k < self.available_devices.len()
            invariant
                k <= self.available_devices@.len(),
                forall|j: int| 0 <= j < k ==> self.available_devices@[j]@.path != info@.path,
            decreases self.available_devices.len() - k,
        {
            if self.available_devices[k].path == info.path {
                assert(self@.available_devices[k as int].path == info@.path);
                return true;
            }
            k += 1;
        }
        assert forall|j: int| 0 <= j < self@.available_devices.len() implies #[trigger] self@.available_devices[j].path
            != info@.path by {
            assert(self@.available_devices[j] == self.available_devices@[j]@);
        }
        false
    }

    /// Takes note of the device of a touch while a device is being chosen; see
    /// [`CalibrationView::candidate_seen`].
    pub fn note_candidate(&mut self, info: &Option<DeviceInfo>)
        ensures
            final(self)@ == old(self)@.candidate_seen(info_view(*info)),
    {
        if let Some(d) = info {
            if !self.knows(d) {
                self.available_devices.push(d.clone());
                assert(self@.available_devices =~= old(self)@.available_devices.push(d@));
            }
        }
    }

    /// Whether a touch of the device `info` is taken; see
    /// [`CalibrationView::listens_to`].
    pub fn listens_to(&self, info: &Option<DeviceInfo>) -> (r: bool)
        ensures
            r == self@.listens_to(info_view(*info)),
    {
        match (&self.selected_device_path, info) {
            (Some(chosen), Some(d)) => d.path == *chosen,
            _ => true,
        }
    }

    /// Chooses the candidate at position `i` and begins with the first corner.
    /// Changes nothing if there is no such candidate.
    pub fn choose_device(&mut self, i: usize)
        ensures
            final(self)@ == old(self)@.chosen(i as int),
    {
        if i < self.available_devices.len() {
            let chosen = self.available_devices[i].clone();
            assert(chosen@ == self@.available_devices[i as int]);
            self.selected_device_index = i;
            self.selected_device_path = Some(chosen.path.clone());
            self.selected_device_info = Some(chosen);
            self.step = CalibrationStep::TopLeft;
        }
    }

    /// Takes a key while a device is being chosen; see
    /// [`CalibrationView::selection_key`].
    pub fn selection_key(&mut self, code: u16)
        ensures
            final(self)@ == old(self)@.selection_key(code),
    {
        let n: usize = self.available_devices.len();
        if code == KEY_UP {
            if n > 0 {
                let sum: u128 = self.selected_device_index as u128 + n as u128 - 1;
                self.selected_device_index = (sum % n as u128) as usize;
            }
        } else if code == KEY_DOWN {
            if n > 0 {
                let sum: u128 = self.selected_device_index as u128 + 1;
                self.selected_device_index = (sum % n as u128) as usize;
            }
        } else if code == KEY_ENTER || code == KEY_KPENTER {
            self.choose_device(self.selected_device_index);
        } else if KEY_1 <= code && code <= KEY_9 {
            self.choose_device((code - KEY_1) as usize);
        }
    }
}

} // verus!
