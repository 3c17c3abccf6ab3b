//! State of the touchscreen test: the choice of the touch device, the
//! calibration, and, once calibrated, the trail of touches, the grid of cells
//! that have been touched and the count of jumps.

use std::collections::VecDeque;
use vstd::prelude::*;
use crate::calibration::{
    Calibration, CalibrationStep, CalibrationView, Point, CALIBRATED_MAX_X, CALIBRATED_MAX_Y,
};
use crate::codes::{KEY_C, KEY_ESC, KEY_Q, KEY_R, KEY_T};
use crate::event_handler::{AppEvent, AppEventView};
use crate::screen::{Nav, ScreenId};

verus! {

/// Columns of the grid of cells.
pub const COLS: u16 = 16;

/// Rows of the grid of cells.
pub const ROWS: u16 = 12;

/// Most points that the trail holds.
pub const MAX_TRAIL_LENGTH: usize = 200;

/// How long a point stays in the trail, in milliseconds.
pub const TRAIL_LIFETIME_MS: u128 = 2000;

/// A touch that lands farther than this from the one before it, in calibrated
/// units, is a jump.
pub const JUMP_THRESHOLD: u32 = 50;

/// A calibrated touch and the time it was taken.
#[derive(Clone, Copy, Debug, PartialEq, Eq, Structural)]
pub struct TouchPoint {
    pub x: u16,
    pub y: u16,
    pub timestamp: u128,
}

/// Counts kept while the calibrated screen is tested. The largest jump is kept
/// as its squared length.
#[derive(Clone, Copy, Debug, PartialEq, Eq, Structural)]
pub struct TouchStatistics {
    pub max_jump_squared: u64,
    pub total_jumps: u32,
    pub total_samples: u32,
}

/// The number after `n`, or `n` itself where there is none.
pub open spec fn bumped(n: u32) -> u32 {
    if n < u32::MAX {
        (n + 1) as u32
    } else {
        n
    }
}

/// The squared distance between two calibrated points.
pub open spec fn jump_squared(from: Point, to: Point) -> int {
    (to.0 - from.0) * (to.0 - from.0) + (to.1 - from.1) * (to.1 - from.1)
}

impl TouchStatistics {
    /// Nothing counted yet.
    pub open spec fn zero() -> TouchStatistics {
        TouchStatistics { max_jump_squared: 0, total_jumps: 0, total_samples: 0 }
    }

    /// The counts after one more sample at `to`, the sample before it having
    /// been at `from`, if there was one.
    pub open spec fn sampled(self, from: Option<Point>, to: Point) -> TouchStatistics {
        let counted = TouchStatistics { total_samples: bumped(self.total_samples), ..self };
        match from {
            Some(f) => if jump_squared(f, to) > JUMP_THRESHOLD * JUMP_THRESHOLD {
                TouchStatistics {
                    total_jumps: bumped(self.total_jumps),
                    max_jump_squared: if jump_squared(f, to) > self.max_jump_squared {
                        jump_squared(f, to) as u64
                    } else {
                        self.max_jump_squared
                    },
                    ..counted
                }
            } else {
                counted
            },
            None => counted,
        }
    }

    /// Counts with nothing counted yet.
    pub fn new() -> (s: Self)
        ensures
            s == Self::zero(),
    {
        TouchStatistics { max_jump_squared: 0, total_jumps: 0, total_samples: 0 }
    }

    /// Forgets everything counted.
    pub fn reset(&mut self)
        ensures
            *final(self) == Self::zero(),
    {
        *self = Self::new();
    }

    /// Counts one more sample; see [`TouchStatistics::sampled`].
    pub fn record(&mut self, from: Option<Point>, to: Point)
        ensures
            *final(self) == old(self).sampled(from, to),
    {
        if self.total_samples < u32::MAX {
            self.total_samples = self.total_samples + 1;
        }
        if let Some(f) = from {
            let dx: i64 = to.0 as i64 - f.0 as i64;
            let dy: i64 = to.1 as i64 - f.1 as i64;
            assert(0 <= dx * dx <= 65535 * 65535) by (nonlinear_arith)
                requires
                    -65535 <= dx <= 65535,
            ;
            assert(0 <= dy * dy <= 65535 * 65535) by (nonlinear_arith)
                requires
                    -65535 <= dy <= 65535,
            ;
            assert(JUMP_THRESHOLD * JUMP_THRESHOLD == 2500) by (nonlinear_arith)
                requires
                    JUMP_THRESHOLD == 50,
            ;
            let d2: u64 = (dx * dx + dy * dy) as u64;
            if d2 > 2500 {
                if self.total_jumps < u32::MAX {
                    self.total_jumps = self.total_jumps + 1;
                }
                if d2 > self.max_jump_squared {
                    self.max_jump_squared = d2;
                }
            }
        }
    }
}

/// The cell of the grid that a calibrated point lies in, counted row by row.
pub open spec fn cell_index(x: u16, y: u16) -> int {
    let col = if x * COLS / (CALIBRATED_MAX_X as int) < COLS - 1 {
        x * COLS / (CALIBRATED_MAX_X as int)
    } else {
        COLS - 1
    };
    let row = if y * ROWS / (CALIBRATED_MAX_Y as int) < ROWS - 1 {
        y * ROWS / (CALIBRATED_MAX_Y as int)
    } else {
        ROWS - 1
    };
    row * COLS + col
}

/// The cell of the grid that a calibrated point lies in.
pub fn cell_of(x: u16, y: u16) -> (i: usize)
    ensures
        i == cell_index(x, y),
        i < COLS * ROWS,
{
    assert(x * COLS <= 65535 * 16 && x * COLS == x * 16) by (nonlinear_arith)
        requires
            COLS == 16,
            x <= 65535,
    ;
    assert(y * ROWS <= 65535 * 12 && y * ROWS == y * 12) by (nonlinear_arith)
        requires
            ROWS == 12,
            y <= 65535,
    ;
    let c: u32 = x as u32 * COLS as u32 / CALIBRATED_MAX_X as u32;
    let r: u32 = y as u32 * ROWS as u32 / CALIBRATED_MAX_Y as u32;
    let col: u32 = if c < COLS as u32 - 1 {
        c
    } else {
        COLS as u32 - 1
    };
    let row: u32 = if r < ROWS as u32 - 1 {
        r
    } else {
        ROWS as u32 - 1
    };
    (row * COLS as u32 + col) as usize
}

/// The trail without the points at its front that are older than
/// [`TRAIL_LIFETIME_MS`] at time `now`. The first point that is young enough
/// keeps all that follow it.
pub open spec fn unexpired(trail: Seq<TouchPoint>, now: u128) -> Seq<TouchPoint>
    decreases trail.len(),
{
    if trail.len() > 0 && now - trail[0].timestamp > TRAIL_LIFETIME_MS {
        unexpired(trail.drop_first(), now)
    } else {
        trail
    }
}

/// The trail with one more point, the oldest dropped if that makes it longer
/// than [`MAX_TRAIL_LENGTH`].
pub open spec fn trail_with(trail: Seq<TouchPoint>, p: TouchPoint) -> Seq<TouchPoint> {
    if trail.len() + 1 > MAX_TRAIL_LENGTH {
        trail.push(p).drop_first()
    } else {
        trail.push(p)
    }
}

/// State of the touchscreen test.
#[derive(Debug)]
pub struct TouchscreenTestScreen {
    pub is_touched: Vec<bool>,
    pub last_touch: Option<AppEvent>,
    pub calibration: Calibration,
    pub touching_idx: Option<usize>,
    pub trail: VecDeque<TouchPoint>,
    pub current_touch: Option<TouchPoint>,
    pub statistics: TouchStatistics,
    pub last_position: Option<Point>,
}

/// Mathematical model of a [`TouchscreenTestScreen`].
pub struct TouchscreenView {
    pub is_touched: Seq<bool>,
    pub last_touch: Option<AppEventView>,
    pub calibration: CalibrationView,
    pub touching_idx: Option<usize>,
    pub trail: Seq<TouchPoint>,
    pub current_touch: Option<TouchPoint>,
    pub statistics: TouchStatistics,
    pub last_position: Option<Point>,
}

/// The view of an optional event.
pub open spec fn event_view(ev: Option<AppEvent>) -> Option<AppEventView> {
    match ev {
        Some(e) => Some(e@),
        None => None,
    }
}

impl View for TouchscreenTestScreen {
    type V = TouchscreenView;

    open spec fn view(&self) -> TouchscreenView {
        TouchscreenView {
            is_touched: self.is_touched@,
            last_touch: event_view(self.last_touch),
            calibration: self.calibration@,
            touching_idx: self.touching_idx,
            trail: self.trail@,
            current_touch: self.current_touch,
            statistics: self.statistics,
            last_position: self.last_position,
        }
    }
}

impl TouchscreenView {
    /// The state of a test that has just been entered.
    pub open spec fn initial() -> TouchscreenView {
        TouchscreenView {
            is_touched: Seq::new((COLS * ROWS) as nat, |i: int| false),
            last_touch: None,
            calibration: CalibrationView::initial(),
            touching_idx: None,
            trail: Seq::empty(),
            current_touch: None,
            statistics: TouchStatistics::zero(),
            last_position: None,
        }
    }

    /// A raw point as it is shown: mapped once the calibration is done, and
    /// until then only clamped to the calibrated range.
    pub open spec fn shown(self, x: u16, y: u16) -> Point {
        if self.calibration.step == CalibrationStep::Done {
            self.calibration.map(x, y)
        } else {
            (
                if x < CALIBRATED_MAX_X {
                    x
                } else {
                    CALIBRATED_MAX_X
                },
                if y < CALIBRATED_MAX_Y {
                    y
                } else {
                    CALIBRATED_MAX_Y
                },
            )
        }
    }

    /// The grid with the cell `i` marked, if there is such a cell.
    pub open spec fn marked(self, i: int) -> Seq<bool> {
        if 0 <= i < self.is_touched.len() {
            self.is_touched.update(i, true)
        } else {
            self.is_touched
        }
    }

    /// The state after a touch on the calibrated screen: the touch is mapped,
    /// counted, added to the trail unless it is a release, and its cell is
    /// marked.
    pub open spec fn tested(self, ev: AppEventView, now: u128) -> TouchscreenView {
        match ev {
            AppEventView::Touch { x, y, released, .. } => {
                let p = self.calibration.map(x, y);
                let point = TouchPoint { x: p.0, y: p.1, timestamp: now };
                TouchscreenView {
                    is_touched: self.marked(cell_index(p.0, p.1)),
                    last_touch: Some(ev),
                    calibration: self.calibration,
                    touching_idx: if released {
                        None
                    } else {
                        Some(cell_index(p.0, p.1) as usize)
                    },
                    trail: if released {
                        self.trail
                    } else {
                        trail_with(self.trail, point)
                    },
                    current_touch: if released {
                        None
                    } else {
                        Some(point)
                    },
                    statistics: self.statistics.sampled(self.last_position, p),
                    last_position: if released {
                        None
                    } else {
                        Some(p)
                    },
                }
            },
            _ => self,
        }
    }

    /// The state after a touch event at time `now`.
    pub open spec fn touch_handled(self, ev: AppEventView, now: u128) -> TouchscreenView {
        match ev {
            AppEventView::Touch { info, .. } => {
                if self.calibration.step == CalibrationStep::DeviceSelection {
                    TouchscreenView { calibration: self.calibration.candidate_seen(info), ..self }
                } else if !self.calibration.listens_to(info) {
                    self
                } else if self.calibration.step == CalibrationStep::Done {
                    self.tested(ev, now)
                } else {
                    TouchscreenView {
                        calibration: self.calibration.record(ev, now),
                        last_touch: Some(ev),
                        ..self
                    }
                }
            },
            _ => self,
        }
    }

    /// The state after the calibration has been asked to start over.
    pub open spec fn recalibrating(self) -> TouchscreenView {
        TouchscreenView {
            calibration: CalibrationView::initial(),
            trail: Seq::empty(),
            statistics: TouchStatistics::zero(),
            current_touch: None,
            last_position: None,
            ..self
        }
    }

    /// The state after a key.
    pub open spec fn key_handled(self, code: u16) -> TouchscreenView {
        let done = self.calibration.step == CalibrationStep::Done;
        if code == KEY_Q || code == KEY_ESC {
            self
        } else if self.calibration.step == CalibrationStep::DeviceSelection {
            TouchscreenView { calibration: self.calibration.selection_key(code), ..self }
        } else if code == KEY_R && done {
            TouchscreenView { statistics: TouchStatistics::zero(), ..self }
        } else if code == KEY_C && done {
            TouchscreenView { trail: Seq::empty(), ..self }
        } else if code == KEY_T {
            self.recalibrating()
        } else {
            self
        }
    }

    /// The state after a tick at time `now`: during calibration the hold
    /// lengthens; afterwards the trail loses the points that are too old.
    pub open spec fn ticked(self, now: u128) -> TouchscreenView {
        if self.calibration.step == CalibrationStep::Done {
            TouchscreenView { trail: unexpired(self.trail, now), ..self }
        } else {
            TouchscreenView { calibration: self.calibration.ticked(now), ..self }
        }
    }

    /// The state after an event at time `now`.
    pub open spec fn handled(self, ev: AppEventView, now: u128) -> TouchscreenView {
        match ev {
            AppEventView::Touch { .. } => self.touch_handled(ev, now),
            AppEventView::Key { code, .. } => self.key_handled(code),
            AppEventView::Tick => self.ticked(now),
            _ => self,
        }
    }

    /// Where an event leads: the keys Q and Esc lead home, everything else
    /// stays.
    pub open spec fn leads(ev: AppEventView) -> Nav {
        match ev {
            AppEventView::Key { code, .. } => if code == KEY_Q || code == KEY_ESC {
                Nav::To(ScreenId::Home)
            } else {
                Nav::Stay
            },
            _ => Nav::Stay,
        }
    }
}

/// Drops the points at the front of the trail that are too old at time `now`.
fn drop_expired(trail: &mut VecDeque<TouchPoint>, now: u128)
    ensures
        final(trail)@ == unexpired(old(trail)@, now),
{
    let mut go: bool = trail.len() > 0 && now > trail[0].timestamp && now - trail[0].timestamp
        > TRAIL_LIFETIME_MS;
    while go
        invariant
            unexpired(trail@, now) == unexpired(old(trail)@, now),
            go == (trail@.len() > 0 && now - trail@[0].timestamp > TRAIL_LIFETIME_MS),
        decreases trail@.len(),
    {
        let ghost before = trail@;
        trail.pop_front();
        assert(trail@ =~= before.drop_first());
        go = trail.len() > 0 && now > trail[0].timestamp && now - trail[0].timestamp
            > TRAIL_LIFETIME_MS;
    }
}

impl TouchscreenTestScreen {
    /// The screen as it is when the test is entered: nothing touched, the
    /// calibration yet to begin.
    pub fn new() -> (s: Self)
        ensures
            s@ == TouchscreenView::initial(),
    {
        let mut is_touched: Vec<bool> = Vec::new();
        let cells: usize = (COLS * ROWS) as usize;
        let mut i: usize = 0;
        while i < cells
            invariant
                i <= cells,
                is_touched@.len() == i,
                forall|k: int| 0 <= k < i ==> !is_touched@[k],
            decreases cells - i,
        {
            is_touched.push(false);
            i += 1;
        }
        let s = TouchscreenTestScreen {
            is_touched,
            last_touch: None,
            calibration: Calibration::new(),
            touching_idx: None,
            trail: VecDeque::new(),
            current_touch: None,
            statistics: TouchStatistics::new(),
            last_position: None,
        };
        assert(s@.is_touched =~= TouchscreenView::initial().is_touched);
        s
    }

    /// Which screen this is.
    pub fn id(&self) -> (id: ScreenId)
        ensures
            id == ScreenId::TouchscreenTest,
    {
        ScreenId::TouchscreenTest
    }

    /// Position in the grid of the cell in column `c` of row `r`.
    pub fn idx(&self, c: usize, r: usize) -> (i: usize)
        requires
            r * COLS + c <= usize::MAX,
        ensures
            i == r * COLS + c,
    {
        assert(r * COLS == r * 16) by (nonlinear_arith)
            requires
                COLS == 16,
        ;
        r * (COLS as usize) + c
    }

    /// A raw point as it is shown: mapped once the calibration is done, and
    /// until then only clamped to the calibrated range.
    pub fn map_raw(&self, x: u16, y: u16) -> (p: Point)
        ensures
            p == self@.shown(x, y),
    {
        if self.calibration.is_done() {
            self.calibration.map(x, y)
        } else {
            (
                if x < CALIBRATED_MAX_X {
                    x
                } else {
                    CALIBRATED_MAX_X
                },
                if y < CALIBRATED_MAX_Y {
                    y
                } else {
                    CALIBRATED_MAX_Y
                },
            )
        }
    }

    /// Marks the cell that the calibrated point `(x, y)` lies in.
    pub fn mark(&mut self, x: u16, y: u16)
        ensures
            final(self)@ == (TouchscreenView {
                is_touched: old(self)@.marked(cell_index(x, y)),
                ..old(self)@
            }),
    {
        let index = cell_of(x, y);
        if index < self.is_touched.len() {
            self.is_touched.set(index, true);
        }
    }

    /// Takes a touch on the calibrated screen.
    fn test_touch(&mut self, touch_event: AppEvent, now: u128)
        requires
            touch_event is Touch,
        ensures
            final(self)@ == old(self)@.tested(touch_event@, now),
    {
        if let AppEvent::Touch { x, y, timestamp: _, released, info: _ } = &touch_event {
            let (mx, my) = self.calibration.map(*x, *y);
            self.statistics.record(self.last_position, (mx, my));
            let index = cell_of(mx, my);
            if *released {
                self.current_touch = None;
                self.last_position = None;
                self.touching_idx = None;
            } else {
                let point = TouchPoint { x: mx, y: my, timestamp: now };
                let ghost before = self.trail@;
                self.trail.push_back(point);
                if self.trail.len() > MAX_TRAIL_LENGTH {
                    self.trail.pop_front();
                }
                assert(self.trail@ =~= trail_with(before, point));
                self.current_touch = Some(point);
                self.last_position = Some((mx, my));
                self.touching_idx = Some(index);
            }
            if index < self.is_touched.len() {
                self.is_touched.set(index, true);
            }
        }
        self.last_touch = Some(touch_event);
    }

    /// Takes a touch event at time `now`. While a device is being chosen the
    /// device of the touch joins the candidates. Afterwards touches of other
    /// devices are ignored; a touch of the chosen device goes to the
    /// calibration until that is done, and to the test from then on.
    pub fn handle_touch(&mut self, touch_event: AppEvent, now: u128)
        ensures
            final(self)@ == old(self)@.touch_handled(touch_event@, now),
    {
        if let AppEvent::Touch { x: _, y: _, timestamp: _, released: _, info } = &touch_event {
            match self.calibration.step {
                CalibrationStep::DeviceSelection => {
                    self.calibration.note_candidate(info);
                    return ;
                },
                _ => {},
            }
            if !self.calibration.listens_to(info) {
                return ;
            }
            if self.calibration.is_done() {
                self.test_touch(touch_event, now);
            } else {
                self.calibration.record_touch(&touch_event, now);
                self.last_touch = Some(touch_event);
            }
        }
    }

    /// Takes a key.
    fn handle_key(&mut self, code: u16)
        ensures
            final(self)@ == old(self)@.key_handled(code),
    {
        if code == KEY_Q || code == KEY_ESC {
            return ;
        }
        let done = self.calibration.is_done();
        match self.calibration.step {
            CalibrationStep::DeviceSelection => {
                self.calibration.selection_key(code);
                return ;
            },
            _ => {},
        }
        if code == KEY_R && done {
            self.statistics.reset();
        } else if code == KEY_C && done {
            self.trail.clear();
        } else if code == KEY_T {
            self.calibration = Calibration::new();
            self.trail.clear();
            self.statistics.reset();
            self.current_touch = None;
            self.last_position = None;
        }
    }

    /// Takes an event at time `now` and says where it leads. Touches go to
    /// [`TouchscreenTestScreen::handle_touch`]. Q and Esc lead home. While a
    /// device is being chosen the other keys move the mark or choose; later R
    /// clears the counts and C the trail, once calibrated, and T starts the
    /// calibration over. A tick lengthens the hold or ages the trail.
    pub fn handle_event(&mut self, event: AppEvent, now: u128) -> (nav: Nav)
        ensures
            final(self)@ == old(self)@.handled(event@, now),
            nav == TouchscreenView::leads(event@),
    {
        match &event {
            AppEvent::Touch { .. } => {
                self.handle_touch(event, now);
                Nav::Stay
            },
            AppEvent::Key { code, .. } => {
                let code: u16 = *code;
                self.handle_key(code);
                if code == KEY_Q || code == KEY_ESC {
                    Nav::To(ScreenId::Home)
                } else {
                    Nav::Stay
                }
            },
            AppEvent::Tick => {
                if self.calibration.is_done() {
                    drop_expired(&mut self.trail, now);
                } else {
                    self.calibration.update_hold_duration(now);
                }
                Nav::Stay
            },
            _ => Nav::Stay,
        }
    }
}

} // verus!
