//! The telemetry listener: a state machine that decodes incoming frames,
//! publishes the freshest one into the shared cell without ever blocking
//! on contention, and enforces a liveness window on the feed.
//!
//! The surrounding process owns the streaming connection and the clock;
//! it maps each poll outcome to a [`FrameEvent`] and hands the listener
//! the elapsed time and the outcome of the cell's try-acquisition.  All
//! decisions — buffering, superseding, publishing, failing — are made here.

use vstd::prelude::*;

use crate::cell::StateCell;
use crate::codec::DecodeError;
use crate::codec::decode_frame;
use crate::codec::spec_decode;
use crate::game::GameState;
use crate::game::GameStateView;

verus! {

/// How long one poll of the stream may wait before liveness is re-checked.
pub const POLL_INTERVAL_MS: u64 = 500;

/// Maximum silence from the telemetry source before the listener fails.
pub const LIVENESS_WINDOW_MS: u64 = 30000;

/// Why the listener terminated.  Every variant is fatal: the listener
/// never retries on its own.
#[derive(Debug)]
pub enum Error {
    /// The streaming transport failed; the detail text comes from it.
    Websocket(String),
    /// A text frame did not decode to a game state.
    Parse(DecodeError),
    /// Nothing was received for the whole liveness window.
    TimedOut,
}

/// Mathematical image of an [`Error`].
pub ghost enum ErrorView {
    Websocket(Seq<char>),
    Parse,
    TimedOut,
}

impl View for Error {
    type V = ErrorView;

    open spec fn view(&self) -> ErrorView {
        match self {
            Error::Websocket(d) => ErrorView::Websocket(d@),
            Error::Parse(_) => ErrorView::Parse,
            Error::TimedOut => ErrorView::TimedOut,
        }
    }
}

/// One poll outcome at the frame level: either a decoded frame, a frame
/// that failed to decode, something other than a text frame (ignored), a
/// poll that yielded nothing within its bound, or a transport fault.
pub enum FrameEvent {
    Frame(GameState),
    Malformed,
    NonText,
    Quiet,
    Transport(String),
}

/// Mathematical image of a [`FrameEvent`]; a decoded or undecodable text
/// frame both appear as `Frame`.
pub ghost enum EventView {
    Frame(Option<GameStateView>),
    NonText,
    Quiet,
    Transport(Seq<char>),
}

impl View for FrameEvent {
    type V = EventView;

    open spec fn view(&self) -> EventView {
        match self {
            FrameEvent::Frame(g) => EventView::Frame(Some(g@)),
            FrameEvent::Malformed => EventView::Frame(None),
            FrameEvent::NonText => EventView::NonText,
            FrameEvent::Quiet => EventView::Quiet,
            FrameEvent::Transport(d) => EventView::Transport(d@),
        }
    }
}

/// One poll outcome at the transport level, as the surrounding process
/// reports it: a text frame (not yet decoded), something other than
/// text, nothing within the poll bound, or a transport fault.
pub enum WsEvent {
    Text(String),
    NonText,
    Quiet,
    Transport(String),
}

impl View for WsEvent {
    type V = EventView;

    open spec fn view(&self) -> EventView {
        match self {
            WsEvent::Text(s) => EventView::Frame(spec_decode(s@)),
            WsEvent::NonText => EventView::NonText,
            WsEvent::Quiet => EventView::Quiet,
            WsEvent::Transport(d) => EventView::Transport(d@),
        }
    }
}

/// Decode a transport-level event into a frame-level one.
fn classify(event: WsEvent) -> (r: FrameEvent)
    ensures
        r@ == event@,
{
    match event {
        WsEvent::Text(s) => {
            match decode_frame(s.as_str()) {
                Ok(g) => FrameEvent::Frame(g),
                Err(_) => FrameEvent::Malformed,
            }
        },
        WsEvent::NonText => FrameEvent::NonText,
        WsEvent::Quiet => FrameEvent::Quiet,
        WsEvent::Transport(d) => FrameEvent::Transport(d),
    }
}

/// The listener's own state: at most one buffered frame awaiting
/// publication, and the time since the last received frame.
pub struct ListenerCore {
    pending: Option<GameState>,
    since_last_ms: u64,
}

/// Mathematical image of a [`ListenerCore`].
pub ghost struct CoreView {
    pub pending: Option<GameStateView>,
    pub since_last_ms: int,
}

impl View for ListenerCore {
    type V = CoreView;

    closed spec fn view(&self) -> CoreView {
        CoreView {
            pending: match self.pending {
                Some(g) => Some(g@),
                None => None,
            },
            since_last_ms: self.since_last_ms as int,
        }
    }
}

/// Addition clamped to the largest counter value.
pub open spec fn spec_sat_add(a: int, b: int) -> int {
    if a + b > u64::MAX {
        u64::MAX as int
    } else {
        a + b
    }
}

/// One whole listener iteration over the model: absorb the event, retry
/// or attempt publication, then check liveness.
///
/// Returns the new listener state, the new cell contents, and the fatal
/// error if the iteration terminates the listener.
pub open spec fn spec_step(
    c: CoreView,
    cell: GameStateView,
    ev: EventView,
    elapsed: int,
    busy: bool,
) -> (CoreView, GameStateView, Option<ErrorView>) {
    match ev {
        EventView::Transport(d) => (c, cell, Some(ErrorView::Websocket(d))),
        EventView::Frame(None) => (c, cell, Some(ErrorView::Parse)),
        _ => {
            let c1 = match ev {
                EventView::Frame(dec) => CoreView { pending: Some(dec->0), since_last_ms: 0 },
                _ => CoreView {
                    pending: c.pending,
                    since_last_ms: spec_sat_add(c.since_last_ms, elapsed),
                },
            };
            let published = c1.pending is Some && !busy;
            let c2 = if published {
                CoreView { pending: None, since_last_ms: c1.since_last_ms }
            } else {
                c1
            };
            let cell2 = if published {
                c1.pending->0
            } else {
                cell
            };
            let res = if c2.since_last_ms >= LIVENESS_WINDOW_MS {
                Some(ErrorView::TimedOut)
            } else {
                None
            };
            (c2, cell2, res)
        },
    }
}

/// The error, if any, that a listener call reports.
pub open spec fn spec_outcome(r: Result<(), Error>) -> Option<ErrorView> {
    match r {
        Ok(_) => None,
        Err(e) => Some(e@),
    }
}

impl ListenerCore {
    /// A fresh listener: nothing buffered, the silence clock at zero.
    pub fn new() -> (c: ListenerCore)
        ensures
            c@.pending is None,
            c@.since_last_ms == 0,
    {
        ListenerCore { pending: None, since_last_ms: 0 }
    }

    /// Absorb one poll outcome: a decoded frame replaces any buffered one
    /// and resets the silence clock; silence and non-text frames advance
    /// the clock; transport faults and undecodable frames are fatal and
    /// leave the state untouched.
    pub fn absorb(&mut self, event: FrameEvent, elapsed_ms: u64) -> (r: Result<(), Error>)
        ensures
            match event@ {
                EventView::Transport(d) => {
                    &&& spec_outcome(r) == Some(ErrorView::Websocket(d))
                    &&& final(self)@ == old(self)@
                },
                EventView::Frame(dec) => {
                    if dec is Some {
                        &&& r is Ok
                        &&& final(self)@.pending == dec
                        &&& final(self)@.since_last_ms == 0
                    } else {
                        &&& spec_outcome(r) == Some(ErrorView::Parse)
                        &&& final(self)@ == old(self)@
                    }
                },
                _ => {
                    &&& r is Ok
                    &&& final(self)@.pending == old(self)@.pending
                    &&& final(self)@.since_last_ms == spec_sat_add(
                        old(self)@.since_last_ms,
                        elapsed_ms as int,
                    )
                },
            },
    {
        match event {
            FrameEvent::Transport(d) => Err(Error::Websocket(d)),
            FrameEvent::Malformed => Err(Error::Parse(DecodeError)),
            FrameEvent::Frame(g) => {
                self.pending = Some(g);
                self.since_last_ms = 0;
                Ok(())
            },
            _ => {
                if elapsed_ms > u64::MAX - self.since_last_ms {
                    self.since_last_ms = u64::MAX;
                } else {
                    self.since_last_ms = self.since_last_ms + elapsed_ms;
                }
                Ok(())
            },
        }
    }

    /// Absorb one transport-level poll outcome: a text frame is decoded
    /// by the codec first, then treated as in `absorb`.
    pub fn ingest(&mut self, event: WsEvent, elapsed_ms: u64) -> (r: Result<(), Error>)
        ensures
            match event@ {
                EventView::Transport(d) => {
                    &&& spec_outcome(r) == Some(ErrorView::Websocket(d))
                    &&& final(self)@ == old(self)@
                },
                EventView::Frame(dec) => {
                    if dec is Some {
                        &&& r is Ok
                        &&& final(self)@.pending == dec
                        &&& final(self)@.since_last_ms == 0
                    } else {
                        &&& spec_outcome(r) == Some(ErrorView::Parse)
                        &&& final(self)@ == old(self)@
                    }
                },
                _ => {
                    &&& r is Ok
                    &&& final(self)@.pending == old(self)@.pending
                    &&& final(self)@.since_last_ms == spec_sat_add(
                        old(self)@.since_last_ms,
                        elapsed_ms as int,
                    )
                },
            },
    {
        let fe = classify(event);
        self.absorb(fe, elapsed_ms)
    }

    /// Whether a frame is waiting to be published.
    pub fn has_pending(&self) -> (b: bool)
        ensures
            b == (self@.pending is Some),
    {
        self.pending.is_some()
    }

    /// Move the buffered frame, if any, into the cell.  The caller holds
    /// the write side of the lock, so installation cannot fail.
    pub fn publish_into(&mut self, cell: &mut StateCell) -> (published: bool)
        ensures
            published == (old(self)@.pending is Some),
            final(self)@.pending is None,
            final(self)@.since_last_ms == old(self)@.since_last_ms,
            final(cell)@ == if old(self)@.pending is Some {
                old(self)@.pending->0
            } else {
                old(cell)@
            },
    {
        let mut taken: Option<GameState> = None;
        core::mem::swap(&mut self.pending, &mut taken);
        match taken {
            Some(g) => {
                cell.install(g);
                true
            },
            None => false,
        }
    }

    /// Whether the silence clock has reached the liveness window.
    pub fn timed_out(&self) -> (b: bool)
        ensures
            b == (self@.since_last_ms >= LIVENESS_WINDOW_MS),
    {
        self.since_last_ms >= LIVENESS_WINDOW_MS
    }
}

/// One whole listener iteration at the frame level, against a cell the
/// caller could or could not acquire (`cell_busy`).  Equivalent to
/// [`spec_step`] on the models.
pub fn step_frame(
    core: &mut ListenerCore,
    cell: &mut StateCell,
    event: FrameEvent,
    elapsed_ms: u64,
    cell_busy: bool,
) -> (r: Result<(), Error>)
    ensures
        ({
            let (c2, v2, e2) = spec_step(
                old(core)@,
                old(cell)@,
                event@,
                elapsed_ms as int,
                cell_busy,
            );
            &&& final(core)@ == c2
            &&& final(cell)@ == v2
            &&& spec_outcome(r) == e2
        }),
{
    let r = core.absorb(event, elapsed_ms);
    if let Err(e) = r {
        return Err(e);
    }
    if core.has_pending() && !cell_busy {
        core.publish_into(cell);
    }
    if core.timed_out() {
        Err(Error::TimedOut)
    } else {
        Ok(())
    }
}

/// One whole listener iteration at the transport level: a text frame is
/// decoded by the codec, the freshest decoded frame is buffered, the
/// buffer is published unless the cell is busy, and liveness is checked
/// last.  Equivalent to [`spec_step`] on the models.
pub fn step(
    core: &mut ListenerCore,
    cell: &mut StateCell,
    event: WsEvent,
    elapsed_ms: u64,
    cell_busy: bool,
) -> (r: Result<(), Error>)
    ensures
        ({
            let (c2, v2, e2) = spec_step(
                old(core)@,
                old(cell)@,
                event@,
                elapsed_ms as int,
                cell_busy,
            );
            &&& final(core)@ == c2
            &&& final(cell)@ == v2
            &&& spec_outcome(r) == e2
        }),
{
    let fe = classify(event);
    step_frame(core, cell, fe, elapsed_ms, cell_busy)
}

/// Law: with the cell uncontended, two frames arriving in order become
/// visible in that order, and a read after the second arrival sees the
/// second frame; nothing stays buffered.
pub proof fn lemma_uncontended_arrival_order(
    c0: CoreView,
    v0: GameStateView,
    f1: GameStateView,
    f2: GameStateView,
    e1: int,
    e2: int,
)
    ensures
        ({
            let (c1, v1, r1) = spec_step(c0, v0, EventView::Frame(Some(f1)), e1, false);
            let (c2, v2, r2) = spec_step(c1, v1, EventView::Frame(Some(f2)), e2, false);
            &&& v1 == f1
            &&& v2 == f2
            &&& c1.pending is None
            &&& c2.pending is None
        }),
{
}

/// The model state after a run of decoded frames, each arriving with the
/// cell uncontended.  A frame arrival resets the silence clock, so the
/// elapsed time plays no part.
pub open spec fn spec_run_frames(
    c: CoreView,
    v: GameStateView,
    frames: Seq<GameStateView>,
) -> (CoreView, GameStateView)
    decreases frames.len(),
{
    if frames.len() == 0 {
        (c, v)
    } else {
        let (c1, v1, r1) = spec_step(c, v, EventView::Frame(Some(frames[0])), 0, false);
        spec_run_frames(c1, v1, frames.drop_first())
    }
}

/// Law: however many frames arrive in order with the cell uncontended,
/// a subsequent read sees exactly the most recently arrived frame, and
/// nothing stays buffered.
pub proof fn lemma_uncontended_run(c: CoreView, v: GameStateView, frames: Seq<GameStateView>)
    requires
        frames.len() > 0,
    ensures
        ({
            let (c2, v2) = spec_run_frames(c, v, frames);
            &&& v2 == frames.last()
            &&& c2.pending is None
        }),
    decreases frames.len(),
{
    let (c1, v1, r1) = spec_step(c, v, EventView::Frame(Some(frames[0])), 0, false);
    if frames.len() == 1 {
        assert(frames.last() == frames[0]);
    } else {
        lemma_uncontended_run(c1, v1, frames.drop_first());
        assert(frames.drop_first().last() == frames.last());
    }
}

/// Law: a frame arrival resets the silence clock, so an iteration that
/// received a frame never reports the timeout, whatever came before.
pub proof fn lemma_frame_resets_clock(
    c: CoreView,
    v: GameStateView,
    f: GameStateView,
    elapsed: int,
    busy: bool,
)
    ensures
        ({
            let (c1, v1, r1) = spec_step(c, v, EventView::Frame(Some(f)), elapsed, busy);
            &&& c1.since_last_ms == 0
            &&& r1 is None
        }),
{
}

/// Law: a value denied by a busy cell stays buffered and is exactly the
/// value the next successful publish installs, when nothing newer arrives
/// in between.
pub proof fn lemma_denied_value_published_next(
    c0: CoreView,
    v0: GameStateView,
    f: GameStateView,
    e1: int,
    ev2: EventView,
    e2: int,
)
    requires
        ev2 is Quiet || ev2 is NonText,
    ensures
        ({
            let (c1, v1, r1) = spec_step(c0, v0, EventView::Frame(Some(f)), e1, true);
            let (c2, v2, r2) = spec_step(c1, v1, ev2, e2, false);
            &&& c1.pending == Some(f)
            &&& v1 == v0
            &&& v2 == f
            &&& c2.pending is None
        }),
{
}

/// Law: while the cell stays busy, a newer arrival supersedes the older
/// buffered frame; once the cell is free again, the second frame is the
/// one read, and the first is never visible.
pub proof fn lemma_latest_pending_wins(
    c0: CoreView,
    v0: GameStateView,
    f1: GameStateView,
    f2: GameStateView,
    e1: int,
    e2: int,
    ev3: EventView,
    e3: int,
)
    requires
        ev3 is Quiet || ev3 is NonText,
    ensures
        ({
            let (c1, v1, r1) = spec_step(c0, v0, EventView::Frame(Some(f1)), e1, true);
            let (c2, v2, r2) = spec_step(c1, v1, EventView::Frame(Some(f2)), e2, true);
            let (c3, v3, r3) = spec_step(c2, v2, ev3, e3, false);
            &&& v1 == v0
            &&& v2 == v0
            &&& c2.pending == Some(f2)
            &&& v3 == f2
        }),
{
}

/// Law: silence that reaches the liveness window terminates the listener
/// with the timeout error and with no other; shorter silence continues.
pub proof fn lemma_silence_times_out(
    c0: CoreView,
    v0: GameStateView,
    ev: EventView,
    elapsed: int,
    busy: bool,
)
    requires
        ev is Quiet || ev is NonText,
    ensures
        ({
            let (c1, v1, r1) = spec_step(c0, v0, ev, elapsed, busy);
            r1 == if spec_sat_add(c0.since_last_ms, elapsed) >= LIVENESS_WINDOW_MS {
                Some(ErrorView::TimedOut)
            } else {
                None::<ErrorView>
            }
        }),
{
}

} // verus!
