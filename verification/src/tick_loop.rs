//! The decisions of the sampling and drawing loop.
//!
//! The loop itself draws, waits for input, reads the clock and probes; none
//! of that happens here. After each of these it reports what happened as a
//! [`LoopEvent`], and [`TickLoop::step`] answers with the [`Action`] to take
//! next. A run starts with [`Action::Render`].

use vstd::prelude::*;
use crate::sampling::{sample_of, sample_or_fallback, ProbeOutcome};
use crate::window::{after_push, SlidingWindow};

verus! {

/// Where the loop stands.
#[derive(Debug, Clone, Copy, PartialEq, Eq, Structural)]
pub enum Phase {
    /// The window is being drawn.
    Rendering,
    /// The loop waits for input, for as long as the tick has left to run.
    PollingInput,
    /// Input was looked at; the clock says whether the tick is over.
    AwaitingTick,
    /// The tick is over and a probe is under way.
    Sampling,
    /// The quit key was pressed. Nothing follows.
    Cancelled,
}

/// What the wait for input came back with.
#[derive(Debug, Clone, Copy, PartialEq, Eq, Structural)]
pub enum InputEvent {
    /// Nothing arrived in time.
    Nothing,
    /// A key that types this character was pressed.
    Key(char),
    /// Something else: another key, the mouse, a resize.
    Other,
}

/// What the loop did last. Every clock reading is in milliseconds since a
/// fixed moment of the caller's choice.
#[derive(Debug, Clone, Copy, PartialEq, Eq, Structural)]
pub enum LoopEvent {
    /// The window was drawn; the clock was read right after.
    Rendered { now_ms: u64 },
    /// The wait for input is over.
    Polled { input: InputEvent },
    /// The clock was read.
    Clock { now_ms: u64 },
    /// The probe is back; the clock was read right after.
    Sampled { outcome: ProbeOutcome, now_ms: u64 },
}

/// What the loop is to do next.
#[derive(Debug, Clone, Copy, PartialEq, Eq, Structural)]
pub enum Action {
    /// Draw the window, then report `Rendered`.
    Render,
    /// Wait for input for at most this long, then report `Polled`.
    Poll { timeout_ms: u64 },
    /// Read the clock, then report `Clock`.
    ReadClock,
    /// Send one probe, then report `Sampled`.
    Sample,
    /// Leave the loop.
    Stop,
}

/// Why a step was refused.
#[derive(Debug, Clone, Copy, PartialEq, Eq, Structural)]
pub enum StepError {
    /// The event is not what the current phase waits for.
    OutOfTurn,
}

/// Everything that the loop's decisions depend on.
pub struct LoopState {
    /// The samples in the window, newest first.
    pub window: Seq<u64>,
    /// The time from one sample to the next.
    pub tick_interval_ms: u64,
    /// The sample recorded for a failed probe.
    pub fallback: u64,
    /// The character whose key ends the loop.
    pub quit_key: char,
    /// The clock reading at the last tick.
    pub last_tick_ms: u64,
    /// Where the loop stands.
    pub phase: Phase,
}

/// The time gone by at `now_ms` since `last_tick_ms`; zero if the clock ran backwards.
pub open spec fn elapsed_since(last_tick_ms: u64, now_ms: u64) -> u64 {
    if now_ms >= last_tick_ms {
        (now_ms - last_tick_ms) as u64
    } else {
        0
    }
}

/// What is left of the tick after `elapsed_ms`, never less than zero.
pub open spec fn remaining(tick_interval_ms: u64, elapsed_ms: u64) -> u64 {
    if elapsed_ms >= tick_interval_ms {
        0
    } else {
        (tick_interval_ms - elapsed_ms) as u64
    }
}

/// Does `input` ask for the loop to end?
pub open spec fn is_quit(input: InputEvent, quit_key: char) -> bool {
    input == InputEvent::Key(quit_key)
}

/// The state that follows `state` on `event`. An event out of turn, and any
/// event once the loop is cancelled, changes nothing.
pub open spec fn next_state(state: LoopState, event: LoopEvent) -> LoopState {
    match (state.phase, event) {
        (Phase::Rendering, LoopEvent::Rendered { now_ms }) => LoopState { phase: Phase::PollingInput, ..state },
        (Phase::PollingInput, LoopEvent::Polled { input }) => if is_quit(input, state.quit_key) {
            LoopState { phase: Phase::Cancelled, ..state }
        } else {
            LoopState { phase: Phase::AwaitingTick, ..state }
        },
        (Phase::AwaitingTick, LoopEvent::Clock { now_ms }) => if elapsed_since(state.last_tick_ms, now_ms)
            >= state.tick_interval_ms {
            LoopState { phase: Phase::Sampling, ..state }
        } else {
            LoopState { phase: Phase::Rendering, ..state }
        },
        (Phase::Sampling, LoopEvent::Sampled { outcome, now_ms }) => LoopState {
            window: after_push(state.window, sample_of(outcome, state.fallback)),
            last_tick_ms: now_ms,
            phase: Phase::Rendering,
            ..state
        },
        _ => state,
    }
}

/// What the loop is told to do when `event` arrives in `state`.
pub open spec fn next_action(state: LoopState, event: LoopEvent) -> Result<Action, StepError> {
    match (state.phase, event) {
        (Phase::Cancelled, _) => Ok(Action::Stop),
        (Phase::Rendering, LoopEvent::Rendered { now_ms }) => Ok(
            Action::Poll {
                timeout_ms: remaining(state.tick_interval_ms, elapsed_since(state.last_tick_ms, now_ms)),
            },
        ),
        (Phase::PollingInput, LoopEvent::Polled { input }) => if is_quit(input, state.quit_key) {
            Ok(Action::Stop)
        } else {
            Ok(Action::ReadClock)
        },
        (Phase::AwaitingTick, LoopEvent::Clock { now_ms }) => if elapsed_since(state.last_tick_ms, now_ms)
            >= state.tick_interval_ms {
            Ok(Action::Sample)
        } else {
            Ok(Action::Render)
        },
        (Phase::Sampling, LoopEvent::Sampled { outcome, now_ms }) => Ok(Action::Render),
        _ => Err(StepError::OutOfTurn),
    }
}

/// The state after each of `events` in turn.
pub open spec fn state_after(state: LoopState, events: Seq<LoopEvent>) -> LoopState
    decreases events.len(),
{
    if events.len() == 0 {
        state
    } else {
        next_state(state_after(state, events.drop_last()), events.last())
    }
}

/// The sampling loop's state: the window it owns, its settings, the time of
/// the last tick and the phase it is in.
pub struct TickLoop {
    window: SlidingWindow,
    tick_interval_ms: u64,
    fallback: u64,
    quit_key: char,
    last_tick_ms: u64,
    phase: Phase,
}

impl View for TickLoop {
    type V = LoopState;

    closed spec fn view(&self) -> LoopState {
        LoopState {
            window: self.window@,
            tick_interval_ms: self.tick_interval_ms,
            fallback: self.fallback,
            quit_key: self.quit_key,
            last_tick_ms: self.last_tick_ms,
            phase: self.phase,
        }
    }
}

impl TickLoop {
    /// The window is in order, and so never empty.
    pub closed spec fn well_formed(&self) -> bool {
        self.window.well_formed()
    }

    /// A well-formed loop has at least one sample in its window.
    pub proof fn lemma_window_never_empty(&self)
        requires
            self.well_formed(),
        ensures
            self@.window.len() >= 1,
    {
        self.window.lemma_never_empty();
    }

    /// A loop about to draw `window` for the first time, its first tick
    /// starting at `now_ms`.
    pub fn new(window: SlidingWindow, tick_interval_ms: u64, fallback: u64, quit_key: char, now_ms: u64) -> (made:
        TickLoop)
        requires
            window.well_formed(),
        ensures
            made.well_formed(),
            made@ == (LoopState {
                window: window@,
                tick_interval_ms,
                fallback,
                quit_key,
                last_tick_ms: now_ms,
                phase: Phase::Rendering,
            }),
    {
        TickLoop { window, tick_interval_ms, fallback, quit_key, last_tick_ms: now_ms, phase: Phase::Rendering }
    }

    /// Where the loop stands.
    pub fn phase(&self) -> (phase: Phase)
        ensures
            phase == self@.phase,
    {
        self.phase
    }

    /// The window, for drawing.
    pub fn window(&self) -> (window: &SlidingWindow)
        requires
            self.well_formed(),
        ensures
            window.well_formed(),
            window@ == self@.window,
    {
        &self.window
    }

    /// Takes in what the loop did last and says what it is to do next.
    ///
    /// Fails exactly when the event is not the one that the phase waits for,
    /// and then changes nothing. Once cancelled, the answer to every event is
    /// `Stop`.
    pub fn step(&mut self, event: LoopEvent) -> (action: Result<Action, StepError>)
        requires
            old(self).well_formed(),
        ensures
            final(self).well_formed(),
            final(self)@ == next_state(old(self)@, event),
            action == next_action(old(self)@, event),
    {
        match self.phase {
            Phase::Cancelled => Ok(Action::Stop),
            Phase::Rendering => match event {
                LoopEvent::Rendered { now_ms } => {
                    let elapsed: u64 = if now_ms >= self.last_tick_ms { now_ms - self.last_tick_ms } else { 0 };
                    let timeout_ms: u64 = if elapsed >= self.tick_interval_ms {
                        0
                    } else {
                        self.tick_interval_ms - elapsed
                    };
                    self.phase = Phase::PollingInput;
                    Ok(Action::Poll { timeout_ms })
                },
                _ => Err(StepError::OutOfTurn),
            },
            Phase::PollingInput => match event {
                LoopEvent::Polled { input } => {
                    let quit: bool = match input {
                        InputEvent::Key(key) => key == self.quit_key,
                        _ => false,
                    };
                    if quit {
                        self.phase = Phase::Cancelled;
                        Ok(Action::Stop)
                    } else {
                        self.phase = Phase::AwaitingTick;
                        Ok(Action::ReadClock)
                    }
                },
                _ => Err(StepError::OutOfTurn),
            },
            Phase::AwaitingTick => match event {
                LoopEvent::Clock { now_ms } => {
                    let elapsed: u64 = if now_ms >= self.last_tick_ms { now_ms - self.last_tick_ms } else { 0 };
                    if elapsed >= self.tick_interval_ms {
                        self.phase = Phase::Sampling;
                        Ok(Action::Sample)
                    } else {
                        self.phase = Phase::Rendering;
                        Ok(Action::Render)
                    }
                },
                _ => Err(StepError::OutOfTurn),
            },
            Phase::Sampling => match event {
                LoopEvent::Sampled { outcome, now_ms } => {
                    let sample: u64 = sample_or_fallback(outcome, self.fallback);
                    self.window.push(sample);
                    self.last_tick_ms = now_ms;
                    self.phase = Phase::Rendering;
                    Ok(Action::Render)
                },
                _ => Err(StepError::OutOfTurn),
            },
        }
    }
}

/// The loop ends only by the quit key: a step leads into `Cancelled` exactly
/// when the loop was waiting for input and the input is the quit key.
pub proof fn lemma_cancelled_only_by_quit_key(state: LoopState, event: LoopEvent)
    requires
        state.phase != Phase::Cancelled,
    ensures
        next_state(state, event).phase == Phase::Cancelled <==> state.phase == Phase::PollingInput && (
        event matches LoopEvent::Polled { input } && is_quit(input, state.quit_key)),
{
}

/// The quit key, seen while waiting for input, ends the loop there and then.
pub proof fn lemma_quit_key_stops(state: LoopState, input: InputEvent)
    requires
        state.phase == Phase::PollingInput,
        is_quit(input, state.quit_key),
    ensures
        next_state(state, LoopEvent::Polled { input }).phase == Phase::Cancelled,
        next_state(state, LoopEvent::Polled { input }).window == state.window,
        next_action(state, LoopEvent::Polled { input }) == Ok::<Action, StepError>(Action::Stop),
{
}

/// Once cancelled, the loop stays as it is whatever is reported to it: the
/// window is not touched again, and the only answer is `Stop`.
pub proof fn lemma_cancelled_is_final(state: LoopState, events: Seq<LoopEvent>)
    requires
        state.phase == Phase::Cancelled,
    ensures
        state_after(state, events) == state,
        forall|event: LoopEvent|
            #[trigger] next_action(state_after(state, events), event) == Ok::<Action, StepError>(Action::Stop),
    decreases events.len(),
{
    if events.len() > 0 {
        lemma_cancelled_is_final(state, events.drop_last());
    }
}

/// No probe outcome ends the loop or skips a sample: whatever comes back,
/// the window gets one new sample in front (the fallback where the probe
/// failed), the tick starts anew, and the loop goes on to draw.
pub proof fn lemma_every_probe_yields_a_sample(state: LoopState, outcome: ProbeOutcome, now_ms: u64)
    requires
        state.phase == Phase::Sampling,
        state.window.len() >= 1,
    ensures
        ({
            let after = next_state(state, LoopEvent::Sampled { outcome, now_ms });
            &&& after.phase == Phase::Rendering
            &&& after.window.len() == state.window.len()
            &&& after.window[0] == sample_of(outcome, state.fallback)
            &&& outcome == ProbeOutcome::Unavailable ==> after.window[0] == state.fallback
            &&& after.last_tick_ms == now_ms
            &&& next_action(state, LoopEvent::Sampled { outcome, now_ms }) == Ok::<Action, StepError>(Action::Render)
        }),
{
}

/// One full tick: drawing, a wait that brings no quit key, a clock reading
/// at or past the end of the tick, and a probe. Together they add exactly
/// one sample to the window and bring the loop back to drawing.
pub proof fn lemma_full_tick_adds_one_sample(
    state: LoopState,
    drawn_ms: u64,
    input: InputEvent,
    checked_ms: u64,
    outcome: ProbeOutcome,
    sampled_ms: u64,
)
    requires
        state.phase == Phase::Rendering,
        !is_quit(input, state.quit_key),
        elapsed_since(state.last_tick_ms, checked_ms) >= state.tick_interval_ms,
    ensures
        state_after(
            state,
            seq![
                LoopEvent::Rendered { now_ms: drawn_ms },
                LoopEvent::Polled { input },
                LoopEvent::Clock { now_ms: checked_ms },
                LoopEvent::Sampled { outcome, now_ms: sampled_ms },
            ],
        ) == (LoopState {
            window: after_push(state.window, sample_of(outcome, state.fallback)),
            last_tick_ms: sampled_ms,
            ..state
        }),
{
    let events = seq![
        LoopEvent::Rendered { now_ms: drawn_ms },
        LoopEvent::Polled { input },
        LoopEvent::Clock { now_ms: checked_ms },
        LoopEvent::Sampled { outcome, now_ms: sampled_ms },
    ];
    let three = events.drop_last();
    let two = three.drop_last();
    let one = two.drop_last();
    assert(one.drop_last().len() == 0);
    assert(state_after(state, one.drop_last()) == state);
    assert(state_after(state, one).phase == Phase::PollingInput);
    assert(state_after(state, two).phase == Phase::AwaitingTick);
    assert(state_after(state, three).phase == Phase::Sampling);
}

/// The wait for input never outlasts the tick, and is over at once when the
/// tick has already run out.
pub proof fn lemma_poll_timeout_within_tick(state: LoopState, now_ms: u64)
    requires
        state.phase == Phase::Rendering,
    ensures
        next_action(state, LoopEvent::Rendered { now_ms }) matches Ok(Action::Poll { timeout_ms }) && timeout_ms
            <= state.tick_interval_ms && (elapsed_since(state.last_tick_ms, now_ms) >= state.tick_interval_ms
            ==> timeout_ms == 0) && timeout_ms + elapsed_since(state.last_tick_ms, now_ms)
            >= state.tick_interval_ms,
{
}

} // verus!
