//! Frame aggregation for multi-touch trackpads that speak the slot protocol.
//!
//! Between two frame boundaries the hardware reports which slot it speaks of,
//! contacts that appear and lift, their coordinates, the click button and the
//! number of fingers. The aggregator gathers all of that and, at the frame
//! boundary, emits it in a fixed order: click, finger count, lifted contacts in
//! the order they lifted, then every changed contact in ascending slot order.

use vstd::prelude::*;
use crate::codes::{
    RawEvent, ABS_MT_POSITION_X, ABS_MT_POSITION_Y, ABS_MT_PRESSURE, ABS_MT_SLOT,
    ABS_MT_TOUCH_MAJOR, ABS_MT_TRACKING_ID, ABS_MT_WIDTH_MAJOR, BTN_LEFT, BTN_TOOL_DOUBLETAP,
    BTN_TOOL_FINGER, BTN_TOOL_QUADTAP, BTN_TOOL_TRIPLETAP, KEY_PRESSED, SYN_REPORT,
};
use crate::event_handler::{FingerState, TrackpadEvent};

verus! {

/// Number of hardware slots that are tracked.
pub const MAX_SLOTS: usize = 10;

/// What is known of the contact in one slot, and whether it changed since the
/// last frame boundary.
#[derive(Clone, Copy, Debug, PartialEq, Eq, Structural)]
pub struct FingerSlot {
    pub x: Option<i32>,
    pub y: Option<i32>,
    pub pressure: Option<i32>,
    pub major: Option<i32>,
    pub width: Option<i32>,
    pub dirty: bool,
}

/// State of the aggregator between two raw events.
#[derive(Debug)]
pub struct FrameAggregator {
    pub slots: [Option<FingerSlot>; MAX_SLOTS],
    pub current_slot: Option<usize>,
    pub pending_finger_up: Vec<usize>,
    pub pending_click: Option<bool>,
    pub pending_finger_count: Option<usize>,
}

/// Mathematical model of a [`FrameAggregator`].
pub struct FrameView {
    pub slots: Seq<Option<FingerSlot>>,
    pub current_slot: Option<usize>,
    pub pending_finger_up: Seq<usize>,
    pub pending_click: Option<bool>,
    pub pending_finger_count: Option<usize>,
}

impl View for FrameAggregator {
    type V = FrameView;

    open spec fn view(&self) -> FrameView {
        FrameView {
            slots: self.slots@,
            current_slot: self.current_slot,
            pending_finger_up: self.pending_finger_up@,
            pending_click: self.pending_click,
            pending_finger_count: self.pending_finger_count,
        }
    }
}

/// A contact that has just appeared: nothing known of it, and changed.
pub open spec fn fresh_slot() -> FingerSlot {
    FingerSlot { x: None, y: None, pressure: None, major: None, width: None, dirty: true }
}

/// The fields of a contact as they are reported.
pub open spec fn snapshot(f: FingerSlot) -> FingerState {
    FingerState { x: f.x, y: f.y, pressure: f.pressure, major: f.major, width: f.width }
}

/// The slot with its change mark removed.
pub open spec fn settled(slot: Option<FingerSlot>) -> Option<FingerSlot> {
    match slot {
        Some(f) => Some(FingerSlot { dirty: false, ..f }),
        None => None,
    }
}

impl FingerSlot {
    /// The contact after the axis `code` reported `value`; unchanged for an axis
    /// that carries no contact field.
    pub open spec fn with_axis(self, code: u16, value: i32) -> FingerSlot {
        if code == ABS_MT_POSITION_X {
            FingerSlot { x: Some(value), dirty: true, ..self }
        } else if code == ABS_MT_POSITION_Y {
            FingerSlot { y: Some(value), dirty: true, ..self }
        } else if code == ABS_MT_PRESSURE {
            FingerSlot { pressure: Some(value), dirty: true, ..self }
        } else if code == ABS_MT_TOUCH_MAJOR {
            FingerSlot { major: Some(value), dirty: true, ..self }
        } else if code == ABS_MT_WIDTH_MAJOR {
            FingerSlot { width: Some(value), dirty: true, ..self }
        } else {
            self
        }
    }
}

/// The number of fingers that a tool key stands for, if it is one of the four
/// finger-count keys.
pub open spec fn finger_count_of(code: u16) -> Option<usize> {
    if code == BTN_TOOL_FINGER {
        Some(1usize)
    } else if code == BTN_TOOL_DOUBLETAP {
        Some(2usize)
    } else if code == BTN_TOOL_TRIPLETAP {
        Some(3usize)
    } else if code == BTN_TOOL_QUADTAP {
        Some(4usize)
    } else {
        None
    }
}

impl FrameView {
    /// The index of the selected slot, if one is selected and tracked.
    pub open spec fn selected(self) -> Option<int> {
        match self.current_slot {
            Some(i) => if i < self.slots.len() {
                Some(i as int)
            } else {
                None
            },
            None => None,
        }
    }

    /// The state after an absolute-axis event.
    pub open spec fn after_axis(self, code: u16, value: i32) -> FrameView {
        if code == ABS_MT_SLOT {
            FrameView {
                current_slot: if 0 <= value < MAX_SLOTS {
                    Some(value as usize)
                } else {
                    None
                },
                ..self
            }
        } else {
            match self.selected() {
                Some(i) => if code == ABS_MT_TRACKING_ID {
                    if value >= 0 {
                        FrameView { slots: self.slots.update(i, Some(fresh_slot())), ..self }
                    } else if self.slots[i] is Some {
                        FrameView {
                            slots: self.slots.update(i, None),
                            pending_finger_up: self.pending_finger_up.push(i as usize),
                            ..self
                        }
                    } else {
                        self
                    }
                } else {
                    match self.slots[i] {
                        Some(f) => FrameView {
                            slots: self.slots.update(i, Some(f.with_axis(code, value))),
                            ..self
                        },
                        None => self,
                    }
                },
                None => self,
            }
        }
    }

    /// The state after a key event.
    pub open spec fn after_key(self, code: u16, value: i32) -> FrameView {
        if code == BTN_LEFT {
            FrameView { pending_click: Some(value == KEY_PRESSED), ..self }
        } else {
            match finger_count_of(code) {
                Some(n) => if value == KEY_PRESSED {
                    FrameView { pending_finger_count: Some(n), ..self }
                } else {
                    self
                },
                None => self,
            }
        }
    }

    /// The state after a frame boundary: nothing pending, nothing marked changed.
    pub open spec fn flushed(self) -> FrameView {
        FrameView {
            slots: self.slots.map_values(|s: Option<FingerSlot>| settled(s)),
            current_slot: self.current_slot,
            pending_finger_up: Seq::empty(),
            pending_click: None,
            pending_finger_count: None,
        }
    }

    /// What is emitted at a frame boundary, in order.
    pub open spec fn flush_events(self) -> Seq<TrackpadEvent> {
        click_events(self.pending_click) + count_events(self.pending_finger_count) + up_events(
            self.pending_finger_up,
        ) + update_events(self.slots)
    }

    /// The state after one raw event.
    pub open spec fn step(self, ev: RawEvent) -> FrameView {
        match ev {
            RawEvent::AbsoluteAxis { code, value } => self.after_axis(code, value),
            RawEvent::Key { code, value } => self.after_key(code, value),
            RawEvent::Synchronization { code, .. } => if code == SYN_REPORT {
                self.flushed()
            } else {
                self
            },
            _ => self,
        }
    }

    /// What one raw event makes the aggregator emit.
    pub open spec fn emitted(self, ev: RawEvent) -> Seq<TrackpadEvent> {
        if ev.is_sync_report() {
            self.flush_events()
        } else {
            Seq::empty()
        }
    }

    /// The state after all of `events`, first to last.
    pub open spec fn run(self, events: Seq<RawEvent>) -> FrameView
        decreases events.len(),
    {
        if events.len() == 0 {
            self
        } else {
            self.run(events.drop_last()).step(events.last())
        }
    }

    /// Everything emitted while taking all of `events`, in order.
    pub open spec fn run_emitted(self, events: Seq<RawEvent>) -> Seq<TrackpadEvent>
        decreases events.len(),
    {
        if events.len() == 0 {
            Seq::empty()
        } else {
            self.run_emitted(events.drop_last()) + self.run(events.drop_last()).emitted(
                events.last(),
            )
        }
    }
}

/// The click event for a pending click state.
pub open spec fn click_events(pending: Option<bool>) -> Seq<TrackpadEvent> {
    match pending {
        Some(down) => seq![TrackpadEvent::Click { down }],
        None => Seq::empty(),
    }
}

/// The finger-count event for a pending count.
pub open spec fn count_events(pending: Option<usize>) -> Seq<TrackpadEvent> {
    match pending {
        Some(count) => seq![TrackpadEvent::FingerCount { count }],
        None => Seq::empty(),
    }
}

/// One finger-up event per lifted slot, in the order they lifted.
pub open spec fn up_events(lifted: Seq<usize>) -> Seq<TrackpadEvent> {
    lifted.map_values(|slot: usize| TrackpadEvent::FingerUp { slot })
}

/// One update per changed slot, in ascending slot order.
pub open spec fn update_events(slots: Seq<Option<FingerSlot>>) -> Seq<TrackpadEvent>
    decreases slots.len(),
{
    if slots.len() == 0 {
        Seq::empty()
    } else {
        let before = update_events(slots.drop_last());
        match slots.last() {
            Some(f) => if f.dirty {
                before.push(
                    TrackpadEvent::FingerUpdate {
                        slot: (slots.len() - 1) as usize,
                        state: snapshot(f),
                    },
                )
            } else {
                before
            },
            None => before,
        }
    }
}

/// Place of an event in the order of emission at a frame boundary.
pub open spec fn emit_rank(e: TrackpadEvent) -> int {
    match e {
        TrackpadEvent::Click { .. } => 0,
        TrackpadEvent::FingerCount { .. } => 1,
        TrackpadEvent::FingerUp { .. } => 2,
        TrackpadEvent::FingerUpdate { .. } => 3,
    }
}

/// Clicks stand before finger counts, those before every finger-up, and those
/// before every update; there is at most one click and one finger count; and
/// the updates come in ascending slot order.
pub open spec fn in_flush_order(out: Seq<TrackpadEvent>) -> bool {
    &&& forall|i: int, j: int|
        0 <= i < j < out.len() ==> emit_rank(#[trigger] out[i]) <= emit_rank(#[trigger] out[j])
    &&& forall|i: int, j: int|
        0 <= i < j < out.len() && emit_rank(#[trigger] out[i]) == emit_rank(#[trigger] out[j])
            ==> emit_rank(out[i]) >= 2
    &&& forall|i: int, j: int|
        0 <= i < j < out.len() && updated_slot(#[trigger] out[i]) is Some && updated_slot(
            #[trigger] out[j],
        ) is Some ==> updated_slot(out[i])->0 < updated_slot(out[j])->0
}

/// The slot that an update speaks of; nothing for any other event.
pub open spec fn updated_slot(e: TrackpadEvent) -> Option<usize> {
    match e {
        TrackpadEvent::FingerUpdate { slot, .. } => Some(slot),
        _ => None,
    }
}

/// `e` is the update of a changed contact of `slots` and carries its fields.
pub open spec fn is_update_of(e: TrackpadEvent, slots: Seq<Option<FingerSlot>>) -> bool {
    match e {
        TrackpadEvent::FingerUpdate { slot, state } => slot < slots.len() && match slots[slot as int] {
            Some(f) => f.dirty && state == snapshot(f),
            None => false,
        },
        _ => false,
    }
}

/// `e` stands in `out` exactly once.
pub open spec fn occurs_once(out: Seq<TrackpadEvent>, e: TrackpadEvent) -> bool {
    exists|i: int|
        0 <= i < out.len() && out[i] == e && forall|j: int|
            0 <= j < out.len() && #[trigger] out[j] == e ==> j == i
}

/// Every update that a slot array gives rise to names a changed contact of that
/// array and carries its fields, and the updates are in ascending slot order.
pub proof fn lemma_update_events(slots: Seq<Option<FingerSlot>>)
    requires
        slots.len() <= usize::MAX,
    ensures
        forall|i: int|
            0 <= i < update_events(slots).len() ==> is_update_of(
                #[trigger] update_events(slots)[i],
                slots,
            ),
        forall|i: int, j: int|
            0 <= i < j < update_events(slots).len() ==> updated_slot(
                #[trigger] update_events(slots)[i],
            )->0 < updated_slot(#[trigger] update_events(slots)[j])->0,
    decreases slots.len(),
{
    if slots.len() > 0 {
        lemma_update_events(slots.drop_last());
    }
}

/// Events that hold no frame boundary make the aggregator emit nothing.
pub proof fn lemma_quiet_between_boundaries(s: FrameView, events: Seq<RawEvent>)
    requires
        forall|i: int| 0 <= i < events.len() ==> !(#[trigger] events[i]).is_sync_report(),
    ensures
        s.run_emitted(events) == Seq::<TrackpadEvent>::empty(),
    decreases events.len(),
{
    if events.len() > 0 {
        lemma_quiet_between_boundaries(s, events.drop_last());
    }
}

/// Whatever was gathered, a frame boundary emits it in the fixed order.
pub proof fn lemma_flush_in_order(s: FrameView)
    requires
        s.slots.len() <= usize::MAX,
    ensures
        in_flush_order(s.flush_events()),
{
    lemma_update_events(s.slots);
    let out = s.flush_events();
    let clicks = click_events(s.pending_click);
    let counts = count_events(s.pending_finger_count);
    let ups = up_events(s.pending_finger_up);
    let updates = update_events(s.slots);
    let a = clicks.len() as int;
    let b = a + counts.len();
    let c = b + ups.len();
    assert forall|i: int| 0 <= i < out.len() implies (i < a ==> emit_rank(#[trigger] out[i]) == 0)
        && (a <= i < b ==> emit_rank(out[i]) == 1) && (b <= i < c ==> emit_rank(out[i]) == 2) && (c
        <= i ==> out[i] == updates[i - c] && emit_rank(out[i]) == 3) by {
        if i < a {
            assert(out[i] == clicks[i]);
        } else if i < b {
            assert(out[i] == counts[i - a]);
        } else if i < c {
            assert(out[i] == ups[i - b]);
        } else {
            assert(out[i] == updates[i - c]);
        }
    }
    assert forall|i: int, j: int|
        0 <= i < j < out.len() && updated_slot(#[trigger] out[i]) is Some && updated_slot(
            #[trigger] out[j],
        ) is Some implies updated_slot(out[i])->0 < updated_slot(out[j])->0 by {
        assert(out[i] == updates[i - c]);
        assert(out[j] == updates[j - c]);
    }
}

/// Right after a frame boundary nothing is left to emit: a second boundary
/// emits nothing.
pub proof fn lemma_nothing_left_after_boundary(s: FrameView)
    ensures
        s.flushed().flush_events() == Seq::<TrackpadEvent>::empty(),
        s.flushed().flushed() == s.flushed(),
{
    let settled_slots = s.slots.map_values(|f: Option<FingerSlot>| settled(f));
    lemma_settled_slots_are_quiet(settled_slots);
    assert(s.flushed().flush_events() =~= Seq::<TrackpadEvent>::empty());
    assert(settled_slots.map_values(|f: Option<FingerSlot>| settled(f)) =~= settled_slots);
}

/// Slots of which none is marked changed give rise to no update.
proof fn lemma_settled_slots_are_quiet(slots: Seq<Option<FingerSlot>>)
    requires
        forall|i: int| 0 <= i < slots.len() ==> settled(#[trigger] slots[i]) == slots[i],
    ensures
        update_events(slots) == Seq::<TrackpadEvent>::empty(),
    decreases slots.len(),
{
    if slots.len() > 0 {
        lemma_settled_slots_are_quiet(slots.drop_last());
        assert(settled(slots.last()) == slots.last());
    }
}

/// For every run of events that holds no frame boundary, followed by one: the
/// boundary emits the click, then the finger count, then the lifted contacts,
/// then the changed contacts, and nothing was emitted before it.
pub proof fn lemma_frame_emits_in_order(s: FrameView, events: Seq<RawEvent>, boundary: RawEvent)
    requires
        s.slots.len() == MAX_SLOTS,
        boundary.is_sync_report(),
        forall|i: int| 0 <= i < events.len() ==> !(#[trigger] events[i]).is_sync_report(),
    ensures
        s.run_emitted(events.push(boundary)) == s.run(events).flush_events(),
        in_flush_order(s.run_emitted(events.push(boundary))),
{
    lemma_quiet_between_boundaries(s, events);
    lemma_run_keeps_slot_count(s, events);
    lemma_flush_in_order(s.run(events));
    assert(events.push(boundary).drop_last() =~= events);
    assert(s.run_emitted(events.push(boundary)) =~= s.run(events).flush_events());
}

/// The number of tracked slots never changes.
pub proof fn lemma_run_keeps_slot_count(s: FrameView, events: Seq<RawEvent>)
    ensures
        s.run(events).slots.len() == s.slots.len(),
    decreases events.len(),
{
    if events.len() > 0 {
        lemma_run_keeps_slot_count(s, events.drop_last());
    }
}

/// When the contact in the selected slot lifts and the frame ends right after,
/// the frame holds exactly one finger-up for that slot and no update for it.
/// The slot must hold a contact that has not already lifted in this frame.
pub proof fn lemma_lift_then_boundary(s: FrameView, lift: RawEvent, boundary: RawEvent, slot: usize)
    requires
        s.slots.len() == MAX_SLOTS,
        lift matches RawEvent::AbsoluteAxis { code, value } && code == ABS_MT_TRACKING_ID && value
            < 0,
        boundary.is_sync_report(),
        s.selected() == Some(slot as int),
        s.slots[slot as int] is Some,
        !s.pending_finger_up.contains(slot),
    ensures
        s.emitted(lift) == Seq::<TrackpadEvent>::empty(),
        occurs_once(s.step(lift).emitted(boundary), TrackpadEvent::FingerUp { slot }),
        forall|j: int|
            0 <= j < s.step(lift).emitted(boundary).len() ==> updated_slot(
                #[trigger] s.step(lift).emitted(boundary)[j],
            ) != Some(slot),
{
    let s1 = s.step(lift);
    let out = s1.emitted(boundary);
    lemma_update_events(s1.slots);
    let clicks = click_events(s1.pending_click);
    let counts = count_events(s1.pending_finger_count);
    let ups = up_events(s1.pending_finger_up);
    let updates = update_events(s1.slots);
    let a = clicks.len() as int;
    let b = a + counts.len();
    let c = b + ups.len();
    let at = c - 1;
    assert(s1.pending_finger_up == s.pending_finger_up.push(slot));
    assert(ups[ups.len() - 1] == TrackpadEvent::FingerUp { slot });
    assert(out[at] == ups[at - b]);
    assert forall|j: int| 0 <= j < out.len() && #[trigger] out[j] == (TrackpadEvent::FingerUp {
        slot,
    }) implies j == at by {
        if j < a {
            assert(out[j] == clicks[j]);
        } else if j < b {
            assert(out[j] == counts[j - a]);
        } else if j < c {
            assert(out[j] == ups[j - b]);
            if j != at {
                assert(s.pending_finger_up[j - b] == slot);
                assert(s.pending_finger_up.contains(slot));
            }
        } else {
            assert(out[j] == updates[j - c]);
        }
    }
    assert forall|j: int| 0 <= j < out.len() implies updated_slot(#[trigger] out[j]) != Some(
        slot,
    ) by {
        if j < a {
            assert(out[j] == clicks[j]);
        } else if j < b {
            assert(out[j] == counts[j - a]);
        } else if j < c {
            assert(out[j] == ups[j - b]);
        } else {
            assert(out[j] == updates[j - c]);
        }
    }
}

impl FrameAggregator {
    /// The state of an aggregator that has seen nothing yet: no contact in any
    /// slot, no slot selected and nothing pending.
    pub open spec fn new_view() -> FrameView {
        FrameView {
            slots: Seq::new(MAX_SLOTS as nat, |i: int| None::<FingerSlot>),
            current_slot: None,
            pending_finger_up: Seq::empty(),
            pending_click: None,
            pending_finger_count: None,
        }
    }

    /// An aggregator that has seen nothing yet.
    pub fn new() -> (a: Self)
        ensures
            a@ == Self::new_view(),
    {
        let a = FrameAggregator {
            slots: [None; MAX_SLOTS],
            current_slot: None,
            pending_finger_up: Vec::new(),
            pending_click: None,
            pending_finger_count: None,
        };
        assert(a@.slots =~= Seq::new(MAX_SLOTS as nat, |i: int| None::<FingerSlot>));
        assert(a@.pending_finger_up =~= Seq::<usize>::empty());
        a
    }

    /// Emits everything gathered since the last frame boundary, in the fixed
    /// order, and clears it.
    pub fn flush(&mut self) -> (out: Vec<TrackpadEvent>)
        ensures
            final(self)@ == old(self)@.flushed(),
            out@ == old(self)@.flush_events(),
    {
        let mut out: Vec<TrackpadEvent> = Vec::new();
        if let Some(down) = self.pending_click {
            out.push(TrackpadEvent::Click { down });
        }
        if let Some(count) = self.pending_finger_count {
            out.push(TrackpadEvent::FingerCount { count });
        }
        let ghost head = out@;
        assert(head =~= click_events(self.pending_click) + count_events(
            self.pending_finger_count,
        ));
        let n: usize = self.pending_finger_up.len();
        let mut i: usize = 0;
        while i < n
            invariant
                *self == *old(self),
                n == self.pending_finger_up@.len(),
                i <= n,
                out@ == head + up_events(self.pending_finger_up@.subrange(0, i as int)),
            decreases n - i,
        {
            let slot: usize = self.pending_finger_up[i];
            out.push(TrackpadEvent::FingerUp { slot });
            i += 1;
            assert(out@ =~= head + up_events(self.pending_finger_up@.subrange(0, i as int)));
        }
        assert(self.pending_finger_up@.subrange(0, n as int) =~= self.pending_finger_up@);
        let ghost ups = out@;
        let ghost orig = self.slots@;
        let mut k: usize = 0;
        while k < MAX_SLOTS
            invariant
                k <= MAX_SLOTS,
                orig == old(self).slots@,
                orig.len() == MAX_SLOTS,
                self.slots@.len() == MAX_SLOTS,
                self.current_slot == old(self).current_slot,
                forall|j: int| 0 <= j < k ==> self.slots@[j] == settled(#[trigger] orig[j]),
                forall|j: int| k <= j < MAX_SLOTS ==> self.slots@[j] == #[trigger] orig[j],
                out@ == ups + update_events(orig.subrange(0, k as int)),
            decreases MAX_SLOTS - k,
        {
            proof {
                assert(orig.subrange(0, k + 1).drop_last() =~= orig.subrange(0, k as int));
                assert(orig.subrange(0, k + 1).last() == orig[k as int]);
            }
            match self.slots[k] {
                Some(f) => {
                    if f.dirty {
                        out.push(
                            TrackpadEvent::FingerUpdate {
                                slot: k,
                                state: FingerState {
                                    x: f.x,
                                    y: f.y,
                                    pressure: f.pressure,
                                    major: f.major,
                                    width: f.width,
                                },
                            },
                        );
                        self.slots[k] = Some(FingerSlot { dirty: false, ..f });
                    }
                },
                None => {},
            }
            k += 1;
            assert(out@ =~= ups + update_events(orig.subrange(0, k as int)));
        }
        assert(orig.subrange(0, MAX_SLOTS as int) =~= orig);
        self.pending_finger_up.clear();
        self.pending_click = None;
        self.pending_finger_count = None;
        assert(self@.slots =~= old(self)@.slots.map_values(|s: Option<FingerSlot>| settled(s)));
        assert(self@.pending_finger_up =~= Seq::<usize>::empty());
        out
    }

    /// Takes one raw event of the device. Returns what the event makes the
    /// aggregator emit: nothing, except at a frame boundary.
    pub fn handle(&mut self, ev: RawEvent) -> (out: Vec<TrackpadEvent>)
        ensures
            final(self)@ == old(self)@.step(ev),
            out@ == old(self)@.emitted(ev),
    {
        match ev {
            RawEvent::AbsoluteAxis { code, value } => {
                self.handle_axis(code, value);
                Vec::new()
            },
            RawEvent::Key { code, value } => {
                if code == BTN_LEFT {
                    self.pending_click = Some(value == KEY_PRESSED);
                } else if value == KEY_PRESSED {
                    if code == BTN_TOOL_FINGER {
                        self.pending_finger_count = Some(1);
                    } else if code == BTN_TOOL_DOUBLETAP {
                        self.pending_finger_count = Some(2);
                    } else if code == BTN_TOOL_TRIPLETAP {
                        self.pending_finger_count = Some(3);
                    } else if code == BTN_TOOL_QUADTAP {
                        self.pending_finger_count = Some(4);
                    }
                }
                Vec::new()
            },
            RawEvent::Synchronization { code, value: _ } => {
                if code == SYN_REPORT {
                    self.flush()
                } else {
                    Vec::new()
                }
            },
            _ => Vec::new(),
        }
    }

    /// Takes one absolute-axis event.
    fn handle_axis(&mut self, code: u16, value: i32)
        ensures
            final(self)@ == old(self)@.after_axis(code, value),
    {
        if code == ABS_MT_SLOT {
            if 0 <= value && value < 10 {
                self.current_slot = Some(value as usize);
            } else {
                self.current_slot = None;
            }
            return ;
        }
        let i: usize = match self.current_slot {
            Some(i) => i,
            None => { return ; },
        };
        if i >= MAX_SLOTS {
            return ;
        }
        if code == ABS_MT_TRACKING_ID {
            if value >= 0 {
                self.slots[i] = Some(
                    FingerSlot {
                        x: None,
                        y: None,
                        pressure: None,
                        major: None,
                        width: None,
                        dirty: true,
                    },
                );
            } else if self.slots[i].is_some() {
                self.slots[i] = None;
                self.pending_finger_up.push(i);
            }
        } else if let Some(f) = self.slots[i] {
            if code == ABS_MT_POSITION_X {
                self.slots[i] = Some(FingerSlot { x: Some(value), dirty: true, ..f });
            } else if code == ABS_MT_POSITION_Y {
                self.slots[i] = Some(FingerSlot { y: Some(value), dirty: true, ..f });
            } else if code == ABS_MT_PRESSURE {
                self.slots[i] = Some(FingerSlot { pressure: Some(value), dirty: true, ..f });
            } else if code == ABS_MT_TOUCH_MAJOR {
                self.slots[i] = Some(FingerSlot { major: Some(value), dirty: true, ..f });
            } else if code == ABS_MT_WIDTH_MAJOR {
                self.slots[i] = Some(FingerSlot { width: Some(value), dirty: true, ..f });
            }
            assert(self@.slots =~= old(self)@.slots.update(i as int, Some(f.with_axis(code, value))));
        }
    }
}

} // verus!
