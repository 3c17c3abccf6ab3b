//! Decoder for the five-byte frames of the serial single-touch panel.
//!
//! A frame is a header byte followed by Y-high, Y-low, X-high and X-low. The
//! header `0xFF` starts a plain frame; `0xBF` starts a frame and flips the
//! touching state first. Each coordinate is `(high << 7) | low`.

use vstd::prelude::*;
use crate::event_handler::{event_views, AppEvent, AppEventView, ReadError, ReadErrorKind};
use crate::machine_detect::{has_serial_touchscreen, ComputerModel};

verus! {

/// Header of a plain frame.
pub const HEADER_PLAIN: u8 = 0xFF;

/// Header of a frame that also toggles the touching state.
pub const HEADER_TOGGLE: u8 = 0xBF;

/// Decoder state. `state` counts the bytes of the current frame that have been
/// taken: 0 waits for a header, 1 to 4 wait for Y-high, Y-low, X-high, X-low.
#[derive(Clone, Copy, Debug, PartialEq, Eq, Structural)]
pub struct Decoder {
    pub state: u8,
    pub y_hi: u8,
    pub y_lo: u8,
    pub x_hi: u8,
    pub is_touching: bool,
}

/// A decoded sample, before it is stamped with its capture time.
#[derive(Clone, Copy, Debug, PartialEq, Eq, Structural)]
pub struct SerialSample {
    pub x: u16,
    pub y: u16,
    pub released: bool,
}

/// Joins the two fragments of a coordinate.
pub open spec fn combine(hi: u8, lo: u8) -> u16 {
    ((hi as u16) << 7) | (lo as u16)
}

/// The decoder after it has taken `byte`.
pub open spec fn next_state(d: Decoder, byte: u8) -> Decoder {
    if d.state == 0 {
        if byte == HEADER_PLAIN {
            Decoder { state: 1, ..d }
        } else if byte == HEADER_TOGGLE {
            Decoder { state: 1, is_touching: !d.is_touching, ..d }
        } else {
            d
        }
    } else if d.state == 1 {
        Decoder { state: 2, y_hi: byte, ..d }
    } else if d.state == 2 {
        Decoder { state: 3, y_lo: byte, ..d }
    } else if d.state == 3 {
        Decoder { state: 4, x_hi: byte, ..d }
    } else {
        Decoder { state: 0, ..d }
    }
}

/// The sample that taking `byte` completes, if it completes one.
pub open spec fn completed(d: Decoder, byte: u8) -> Option<SerialSample> {
    if d.state == 4 {
        Some(
            SerialSample {
                x: combine(d.x_hi, byte),
                y: combine(d.y_hi, d.y_lo),
                released: !d.is_touching,
            },
        )
    } else {
        None
    }
}

/// The touch event that carries `sample`, captured at `timestamp`.
pub open spec fn sample_event(sample: SerialSample, timestamp: u128) -> AppEventView {
    AppEventView::Touch {
        x: sample.x,
        y: sample.y,
        timestamp,
        released: sample.released,
        info: None,
    }
}

/// The decoder after it has taken all of `bytes`, first to last.
pub open spec fn run_state(d: Decoder, bytes: Seq<u8>) -> Decoder
    decreases bytes.len(),
{
    if bytes.len() == 0 {
        d
    } else {
        next_state(run_state(d, bytes.drop_last()), bytes.last())
    }
}

/// The samples completed while taking all of `bytes`, in order.
pub open spec fn run_samples(d: Decoder, bytes: Seq<u8>) -> Seq<SerialSample>
    decreases bytes.len(),
{
    if bytes.len() == 0 {
        Seq::empty()
    } else {
        let before = run_samples(d, bytes.drop_last());
        match completed(run_state(d, bytes.drop_last()), bytes.last()) {
            Some(s) => before.push(s),
            None => before,
        }
    }
}

impl Decoder {
    /// A decoder that waits for a header, not touching.
    pub fn new() -> (d: Self)
        ensures
            d == (Decoder { state: 0, y_hi: 0, y_lo: 0, x_hi: 0, is_touching: false }),
    {
        Decoder { state: 0, y_hi: 0, y_lo: 0, x_hi: 0, is_touching: false }
    }

    /// Takes one byte. Returns the touch event that this byte completes, stamped
    /// with `timestamp`, or nothing while a frame is still open or the byte is
    /// discarded.
    pub fn feed(&mut self, byte: u8, timestamp: u128) -> (ev: Option<AppEvent>)
        ensures
            *final(self) == next_state(*old(self), byte),
            match completed(*old(self), byte) {
                Some(s) => ev.is_some() && ev.unwrap()@ == sample_event(s, timestamp),
                None => ev.is_none(),
            },
    {
        if self.state == 0 {
            if byte == HEADER_PLAIN {
                self.state = 1;
            } else if byte == HEADER_TOGGLE {
                self.is_touching = !self.is_touching;
                self.state = 1;
            }
            None
        } else if self.state == 1 {
            self.y_hi = byte;
            self.state = 2;
            None
        } else if self.state == 2 {
            self.y_lo = byte;
            self.state = 3;
            None
        } else if self.state == 3 {
            self.x_hi = byte;
            self.state = 4;
            None
        } else if self.state == 4 {
            let x: u16 = ((self.x_hi as u16) << 7) | (byte as u16);
            let y: u16 = ((self.y_hi as u16) << 7) | (self.y_lo as u16);
            self.state = 0;
            Some(AppEvent::Touch { x, y, timestamp, released: !self.is_touching, info: None })
        } else {
            self.state = 0;
            None
        }
    }
}

/// The touch events that carry `samples`, all captured at `timestamp`.
pub open spec fn sample_events(samples: Seq<SerialSample>, timestamp: u128) -> Seq<AppEventView> {
    samples.map_values(|s: SerialSample| sample_event(s, timestamp))
}

impl Decoder {
    /// Takes the bytes of one read, first to last. Returns the touch events
    /// that they complete, in order, all stamped with `timestamp`.
    pub fn feed_all(&mut self, bytes: &[u8], timestamp: u128) -> (events: Vec<AppEvent>)
        ensures
            *final(self) == run_state(*old(self), bytes@),
            event_views(events@) == sample_events(run_samples(*old(self), bytes@), timestamp),
    {
        let mut events: Vec<AppEvent> = Vec::new();
        let mut i: usize = 0;
        while i < bytes.len()
            invariant
                i <= bytes.len(),
                *self == run_state(*old(self), bytes@.subrange(0, i as int)),
                events@.len() == run_samples(*old(self), bytes@.subrange(0, i as int)).len(),
                event_views(events@) == sample_events(
                    run_samples(*old(self), bytes@.subrange(0, i as int)),
                    timestamp,
                ),
            decreases bytes.len() - i,
        {
            let ghost before = events@;
            let ghost taken = bytes@.subrange(0, i as int);
            proof {
                assert(bytes@.subrange(0, i + 1).drop_last() =~= taken);
                assert(bytes@.subrange(0, i + 1).last() == bytes@[i as int]);
            }
            if let Some(ev) = self.feed(bytes[i], timestamp) {
                events.push(ev);
            }
            i += 1;
            proof {
                let now = run_samples(*old(self), bytes@.subrange(0, i as int));
                assert forall|k: int| 0 <= k < events@.len() implies event_views(events@)[k]
                    == sample_events(now, timestamp)[k] by {
                    if k < before.len() {
                        assert(events@[k] == before[k]);
                        assert(event_views(before)[k] == sample_events(
                            run_samples(*old(self), taken),
                            timestamp,
                        )[k]);
                    }
                }
                assert(event_views(events@) =~= sample_events(now, timestamp));
            }
        }
        assert(bytes@.subrange(0, bytes.len() as int) =~= bytes@);
        events
    }
}

/// While the decoder waits for a header, a byte that is no header is
/// discarded: it completes nothing and changes nothing.
pub proof fn lemma_noise_is_discarded(d: Decoder, byte: u8)
    requires
        d.state == 0,
        byte != HEADER_PLAIN,
        byte != HEADER_TOGGLE,
    ensures
        next_state(d, byte) == d,
        completed(d, byte) is None,
{
}

/// Whether the decoder is touching after it has taken the header `header`.
pub open spec fn touching_after(d: Decoder, header: u8) -> bool {
    if header == HEADER_TOGGLE {
        !d.is_touching
    } else {
        d.is_touching
    }
}

/// A whole frame, taken by a decoder that waits for a header, completes exactly
/// one sample, at its last byte, and leaves the decoder waiting for a header.
/// A toggling header flips the touching state before the sample is made.
pub proof fn lemma_frame_decodes(d: Decoder, header: u8, y_hi: u8, y_lo: u8, x_hi: u8, x_lo: u8)
    requires
        d.state == 0,
        header == HEADER_PLAIN || header == HEADER_TOGGLE,
    ensures
        run_samples(d, seq![header, y_hi, y_lo, x_hi, x_lo]) == seq![
            SerialSample {
                x: combine(x_hi, x_lo),
                y: combine(y_hi, y_lo),
                released: !touching_after(d, header),
            },
        ],
        run_state(d, seq![header, y_hi, y_lo, x_hi, x_lo]).state == 0,
        run_state(d, seq![header, y_hi, y_lo, x_hi, x_lo]).is_touching == touching_after(d, header),
{
    let f5 = seq![header, y_hi, y_lo, x_hi, x_lo];
    let f4 = seq![header, y_hi, y_lo, x_hi];
    let f3 = seq![header, y_hi, y_lo];
    let f2 = seq![header, y_hi];
    let f1 = seq![header];
    assert(f5.drop_last() =~= f4);
    assert(f4.drop_last() =~= f3);
    assert(f3.drop_last() =~= f2);
    assert(f2.drop_last() =~= f1);
    assert(f1.drop_last() =~= Seq::<u8>::empty());
    reveal_with_fuel(run_state, 6);
    reveal_with_fuel(run_samples, 6);
    assert(run_state(d, f1) == next_state(d, header));
    assert(run_state(d, f2) == next_state(run_state(d, f1), y_hi));
    assert(run_state(d, f3) == next_state(run_state(d, f2), y_lo));
    assert(run_state(d, f4) == next_state(run_state(d, f3), x_hi));
    assert(run_samples(d, f1) =~= Seq::<SerialSample>::empty());
    assert(run_samples(d, f2) =~= Seq::<SerialSample>::empty());
    assert(run_samples(d, f3) =~= Seq::<SerialSample>::empty());
    assert(run_samples(d, f4) =~= Seq::<SerialSample>::empty());
    assert(run_samples(d, f5) =~= seq![
        SerialSample {
            x: combine(x_hi, x_lo),
            y: combine(y_hi, y_lo),
            released: !touching_after(d, header),
        },
    ]);
}

/// Two fragments of seven bits each join to the number whose upper seven bits
/// are the high fragment and whose lower seven bits are the low fragment.
pub proof fn lemma_combine_fragments(hi: u8, lo: u8)
    requires
        lo < 128,
    ensures
        combine(hi, lo) == hi * 128 + lo,
{
    assert(((hi as u16) << 7) | (lo as u16) == (hi as u16) * 128 + (lo as u16)) by (bit_vector)
        requires
            lo < 128,
    ;
}

/// Path of the serial port of the touch panel.
pub const SERIAL_PORT_PATH: &'static str = "/dev/ttyS3";

/// Speed of the serial port; it runs with 8 data bits, no parity, one stop bit
/// and no flow control.
pub const SERIAL_BAUD: u32 = 19200;

/// How long one read waits for data, in milliseconds.
pub const READ_TIMEOUT_MS: u64 = 1000;

/// How long the reader rests after a read that brought nothing, in
/// milliseconds.
pub const IDLE_SLEEP_MS: u64 = 2;

/// How long the reader waits before it tries again to open the port, in
/// milliseconds.
pub const RETRY_SLEEP_MS: u64 = 1000;

/// Of this many failed attempts to open the port, one is reported.
pub const REPORT_EVERY: u8 = 10;

/// Why no serial reader was made.
#[derive(Clone, Copy, Debug, PartialEq, Eq, Structural)]
pub enum SpawnError {
    /// The computer is of a model without a serial touch panel.
    NoSerialPanel,
}

impl SpawnError {
    /// The text shown to the user.
    pub open spec fn message_text(self) -> Seq<char> {
        "serial touch reader can only be spawned on DatorBärbarFält model"@
    }

    /// The text shown to the user.
    pub fn message(&self) -> (m: String)
        ensures
            m@ == self.message_text(),
    {
        "serial touch reader can only be spawned on DatorBärbarFält model".to_owned()
    }
}

/// What the reader asks its caller to do next.
#[derive(Clone, Copy, Debug, PartialEq, Eq, Structural)]
pub enum ReaderAction {
    /// Open the port.
    Open,
    /// Read from the open port.
    Read,
}

/// What came of the action that the reader asked for.
#[derive(Debug)]
pub enum PortEvent {
    /// The port is open.
    Opened,
    /// The port could not be opened.
    OpenFailed,
    /// A read returned these bytes, possibly none.
    Data(Vec<u8>),
    /// A read failed.
    ReadFailed(ReadError),
}

/// Mathematical model of a [`PortEvent`].
pub enum PortEventView {
    Opened,
    OpenFailed,
    Data(Seq<u8>),
    ReadFailed(ReadError),
}

impl View for PortEvent {
    type V = PortEventView;

    open spec fn view(&self) -> PortEventView {
        match *self {
            PortEvent::Opened => PortEventView::Opened,
            PortEvent::OpenFailed => PortEventView::OpenFailed,
            PortEvent::Data(bytes) => PortEventView::Data(bytes@),
            PortEvent::ReadFailed(e) => PortEventView::ReadFailed(e),
        }
    }
}

/// State of the reader of the serial touch panel: how many failed attempts to
/// open the port have gone unreported, and, while the port is open, the decoder.
#[derive(Clone, Copy, Debug, PartialEq, Eq, Structural)]
pub struct SerialReader {
    pub unreported_failures: u8,
    pub decoder: Option<Decoder>,
}

/// What the reader decided on an event: the touch events to publish, whether
/// the failure is to be reported, how long to rest, and what to do then.
#[derive(Debug)]
pub struct ReaderStep {
    pub events: Vec<AppEvent>,
    pub report: bool,
    pub sleep_ms: u64,
    pub next: ReaderAction,
}

impl SerialReader {
    /// The count of unreported failures after one more failure.
    pub open spec fn failures_after(self) -> u8 {
        if self.unreported_failures >= REPORT_EVERY - 1 {
            0
        } else {
            (self.unreported_failures + 1) as u8
        }
    }

    /// The reader after `event`.
    pub open spec fn after(self, event: PortEventView) -> SerialReader {
        match (self.decoder, event) {
            (None, PortEventView::Opened) => SerialReader {
                decoder: Some(
                    Decoder { state: 0, y_hi: 0, y_lo: 0, x_hi: 0, is_touching: false },
                ),
                ..self
            },
            (None, PortEventView::OpenFailed) => SerialReader {
                unreported_failures: self.failures_after(),
                ..self
            },
            (Some(d), PortEventView::Data(bytes)) => SerialReader {
                decoder: Some(run_state(d, bytes)),
                ..self
            },
            (Some(d), PortEventView::ReadFailed(e)) => if e.kind == ReadErrorKind::TimedOut {
                self
            } else {
                SerialReader { decoder: None, ..self }
            },
            _ => self,
        }
    }

    /// The samples that `event` completes.
    pub open spec fn samples_on(self, event: PortEventView) -> Seq<SerialSample> {
        match (self.decoder, event) {
            (Some(d), PortEventView::Data(bytes)) => run_samples(d, bytes),
            _ => Seq::empty(),
        }
    }

    /// Whether the failure that `event` tells of is to be reported: every
    /// tenth failure to open the port, and every failed read but a timeout.
    pub open spec fn reports(self, event: PortEventView) -> bool {
        match (self.decoder, event) {
            (None, PortEventView::OpenFailed) => self.failures_after() == 0,
            (Some(d), PortEventView::ReadFailed(e)) => e.kind != ReadErrorKind::TimedOut,
            _ => false,
        }
    }

    /// How long to rest after `event`, in milliseconds.
    pub open spec fn rest_after(self, event: PortEventView) -> u64 {
        match (self.decoder, event) {
            (None, PortEventView::OpenFailed) => RETRY_SLEEP_MS,
            (Some(d), PortEventView::Data(bytes)) => if bytes.len() == 0 {
                IDLE_SLEEP_MS
            } else {
                0
            },
            _ => 0,
        }
    }

    /// What the reader asks for in this state.
    pub open spec fn wants(self) -> ReaderAction {
        if self.decoder is Some {
            ReaderAction::Read
        } else {
            ReaderAction::Open
        }
    }

    /// What to ask of the caller in this state.
    pub fn next_action(&self) -> (a: ReaderAction)
        ensures
            a == self.wants(),
    {
        if self.decoder.is_some() {
            ReaderAction::Read
        } else {
            ReaderAction::Open
        }
    }

    /// Takes what came of the last action, at time `timestamp`, and decides what
    /// follows. An event that does not answer the action that the reader asked
    /// for changes nothing.
    pub fn on_event(&mut self, event: &PortEvent, timestamp: u128) -> (step: ReaderStep)
        ensures
            *final(self) == old(self).after(event@),
            event_views(step.events@) == sample_events(old(self).samples_on(event@), timestamp),
            step.report == old(self).reports(event@),
            step.sleep_ms == old(self).rest_after(event@),
            step.next == final(self).wants(),
    {
        let mut events: Vec<AppEvent> = Vec::new();
        let mut report = false;
        let mut sleep_ms: u64 = 0;
        match self.decoder {
            None => {
                match event {
                    PortEvent::Opened => {
                        self.decoder = Some(Decoder::new());
                    },
                    PortEvent::OpenFailed => {
                        if self.unreported_failures >= REPORT_EVERY - 1 {
                            self.unreported_failures = 0;
                            report = true;
                        } else {
                            self.unreported_failures = self.unreported_failures + 1;
                        }
                        sleep_ms = RETRY_SLEEP_MS;
                    },
                    _ => {},
                }
            },
            Some(mut d) => {
                match event {
                    PortEvent::Data(bytes) => {
                        if bytes.len() == 0 {
                            sleep_ms = IDLE_SLEEP_MS;
                        }
                        events = d.feed_all(bytes.as_slice(), timestamp);
                        self.decoder = Some(d);
                    },
                    PortEvent::ReadFailed(e) => {
                        match e.kind {
                            ReadErrorKind::TimedOut => {},
                            _ => {
                                report = true;
                                self.decoder = None;
                            },
                        }
                    },
                    _ => {},
                }
            },
        }
        proof {
            assert(event_views(events@) =~= sample_events(
                old(self).samples_on(event@),
                timestamp,
            ));
        }
        let next = self.next_action();
        ReaderStep { events, report, sleep_ms, next }
    }
}

/// The reader for the serial touch panel of a computer of the given model, in
/// its first state: the port is yet to be opened. Only a model with a serial
/// touch panel gets one.
pub fn spawn_reader(model: ComputerModel) -> (r: Result<SerialReader, SpawnError>)
    ensures
        r == if model == ComputerModel::DatorBBFalt {
            Ok::<SerialReader, SpawnError>(SerialReader { unreported_failures: 0, decoder: None })
        } else {
            Err::<SerialReader, SpawnError>(SpawnError::NoSerialPanel)
        },
{
    if has_serial_touchscreen(model) {
        Ok(SerialReader { unreported_failures: 0, decoder: None })
    } else {
        Err(SpawnError::NoSerialPanel)
    }
}

} // verus!
