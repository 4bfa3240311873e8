//! The timers that gate movement. They are timers of the engine, `Timer` of
//! `bevy::time`: each adds up the time that has passed and is looked at once
//! per tick.
//!
//! - `manual`: the pause between two moves that the player makes.
//! - `auto`: the interval at which the piece falls by itself.
//! - `rm_pieces`: the grace period before a piece that has touched down
//!   becomes part of the board.
use crate::score::Score;
use bevy::time::{Timer, TimerMode};
use std::time::Duration;
use vstd::prelude::*;

verus! {

/// The engine's timer. What it holds is spoken of through [`timer_state`].
#[verifier::external_type_specification]
#[verifier::external_body]
pub struct ExTimer(bevy::time::Timer);

/// What a timer does once it has reached its duration.
#[derive(Clone, Copy, Debug, PartialEq, Eq, Structural)]
pub enum Mode {
    /// The timer stops at its duration and stays finished until it is set
    /// back.
    Once,
    /// The timer starts over each time it reaches its duration.
    Repeating,
}

/// What a timer holds. Times are in nanoseconds.
pub struct TimerState {
    /// The time to reach.
    pub duration: nat,
    /// The time accumulated so far.
    pub elapsed: nat,
    /// Whether the timer runs once or repeats.
    pub mode: Mode,
    /// Has the duration been reached? A repeating timer says so only after
    /// a tick in which it was reached.
    pub finished: bool,
    /// How often the duration was reached in the latest tick.
    pub times_finished: nat,
    /// Is the timer paused?
    pub paused: bool,
}

/// What the given timer holds.
pub uninterp spec fn timer_state(timer: Timer) -> TimerState;

/// Nanoseconds in a millisecond.
pub const NANOS_PER_MILLI: u64 = 1_000_000;

/// Nanoseconds in a second.
pub const NANOS_PER_SEC: u32 = 1_000_000_000;

/// The longest time that a `Duration` holds, in nanoseconds.
pub open spec fn max_duration() -> nat {
    (u64::MAX * NANOS_PER_SEC + NANOS_PER_SEC - 1) as nat
}

impl TimerState {
    /// Was the duration reached in the latest tick?
    pub open spec fn just_finished(self) -> bool {
        self.times_finished > 0
    }

    /// Whether the timer can take a tick of `delta`: the time it then holds
    /// fits a `Duration`, and a repeating timer has a duration to divide by.
    pub open spec fn can_tick(self, delta: nat) -> bool {
        &&& self.elapsed + delta <= max_duration()
        &&& self.mode == Mode::Repeating ==> self.duration > 0
    }

    /// The timer after a tick of `delta`.
    ///
    /// A paused timer does not advance; it counts no finish for this tick,
    /// and a repeating one is not finished. A timer that runs once and has
    /// finished stays as it is and counts no finish. Otherwise `delta` is
    /// added to the elapsed time, and the timer is finished if that reaches
    /// the duration. A repeating timer then counts how often the duration
    /// fits into the elapsed time, as a number of 32 bits, and keeps what is
    /// left over; a timer that runs once counts one finish and stops at its
    /// duration.
    pub open spec fn ticked(self, delta: nat) -> TimerState {
        let total = self.elapsed + delta;
        if self.paused {
            TimerState {
                times_finished: 0,
                finished: if self.mode == Mode::Repeating {
                    false
                } else {
                    self.finished
                },
                ..self
            }
        } else if self.mode != Mode::Repeating && self.finished {
            TimerState { times_finished: 0, ..self }
        } else if total < self.duration {
            TimerState { elapsed: total, finished: false, times_finished: 0, ..self }
        } else if self.mode == Mode::Repeating {
            let times = (total / self.duration) % 0x1_0000_0000;
            TimerState {
                elapsed: (total - self.duration * times) as nat,
                finished: true,
                times_finished: times,
                ..self
            }
        } else {
            TimerState { elapsed: self.duration, finished: true, times_finished: 1, ..self }
        }
    }

    /// Whether the timer runs in an orderly way: it is not paused, it has a
    /// duration that a `u64` of nanoseconds holds, and no more time has
    /// elapsed than that.
    pub open spec fn steady(self) -> bool {
        &&& !self.paused
        &&& 0 < self.duration <= u64::MAX
        &&& self.elapsed <= self.duration
    }

    /// Whether the timer would reach its duration fewer than 2^32 times in a
    /// tick of `delta`, so that the count of its finishes is not cut short.
    pub open spec fn counts(self, delta: nat) -> bool {
        self.elapsed + delta < 0x1_0000_0000 * self.duration
    }

    /// A steady timer can take any tick of the game, and stays steady in a
    /// tick in which it counts its finishes in full. A timer that runs once
    /// does so in every tick. Set back after the tick, it is steady in any
    /// case.
    pub proof fn lemma_steady(self, delta: nat)
        requires
            self.steady(),
            delta <= max_tick(),
        ensures
            self.can_tick(delta),
            self.mode == Mode::Once || self.counts(delta) ==> self.ticked(delta).steady(),
            self.ticked(delta).duration == self.duration,
            self.ticked(delta).mode == self.mode,
            self.ticked(delta).rewound().steady(),
    {
        let total = self.elapsed + delta;
        if self.mode == Mode::Repeating && self.counts(delta) && total >= self.duration {
            let d = self.duration as int;
            let q = total as int / d;
            assert(0 <= q < 0x1_0000_0000 && 0 <= total - d * q < d) by (nonlinear_arith)
                requires
                    d > 0,
                    0 <= total < 0x1_0000_0000 * d,
                    q == total as int / d,
            ;
            assert(q % 0x1_0000_0000 == q);
        }
    }

    /// The timer set back: no time has elapsed, and it has not finished.
    pub open spec fn rewound(self) -> TimerState {
        TimerState { elapsed: 0, finished: false, times_finished: 0, ..self }
    }

    /// A fresh timer of the given duration in milliseconds, with the whole
    /// duration already elapsed, so that its first tick finishes it.
    pub open spec fn primed(millis: u64, mode: Mode) -> TimerState {
        TimerState {
            duration: (millis * NANOS_PER_MILLI) as nat,
            elapsed: (millis * NANOS_PER_MILLI) as nat,
            mode,
            finished: false,
            times_finished: 0,
            paused: false,
        }
    }
}

/// Makes a timer: `Timer::new` with a duration of `Duration::from_millis` and
/// the engine's mode of the same name. The new timer has the given duration
/// and mode, no time elapsed, is not finished and not paused.
#[verifier::external_body]
pub(crate) fn timer_new(millis: u64, mode: Mode) -> (timer: Timer)
    ensures
        timer_state(timer) == (TimerState {
            duration: (millis * NANOS_PER_MILLI) as nat,
            elapsed: 0,
            mode,
            finished: false,
            times_finished: 0,
            paused: false,
        }),
{
    let mode = match mode {
        Mode::Once => TimerMode::Once,
        Mode::Repeating => TimerMode::Repeating,
    };
    Timer::new(Duration::from_millis(millis), mode)
}

/// Sets the elapsed time: `Timer::set_elapsed` with `Duration::from_millis`.
/// Nothing but the elapsed time changes; whether the timer counts as finished
/// stays as it was.
#[verifier::external_body]
pub(crate) fn timer_set_elapsed(timer: &mut Timer, millis: u64)
    ensures
        timer_state(*final(timer)) == (TimerState {
            elapsed: (millis * NANOS_PER_MILLI) as nat,
            ..timer_state(*old(timer))
        }),
{
    timer.set_elapsed(Duration::from_millis(millis));
}

/// Advances a timer: `Timer::tick` with `Duration::new(secs, nanos)`. The
/// timer changes as [`TimerState::ticked`] says. Left out are the ticks on
/// which the call panics: nanoseconds that make up a whole second or more,
/// an elapsed time beyond what a `Duration` holds, and a repeating timer
/// without a duration.
#[verifier::external_body]
pub(crate) fn timer_tick(timer: &mut Timer, secs: u64, nanos: u32)
    requires
        nanos < NANOS_PER_SEC,
        timer_state(*old(timer)).can_tick((secs * NANOS_PER_SEC + nanos) as nat),
    ensures
        timer_state(*final(timer)) == timer_state(*old(timer)).ticked((secs * NANOS_PER_SEC + nanos) as nat),
{
    timer.tick(Duration::new(secs, nanos));
}

/// Sets a timer back: `Timer::reset`. No time has elapsed then and the timer
/// has not finished; duration, mode and pause stay.
#[verifier::external_body]
pub(crate) fn timer_reset(timer: &mut Timer)
    ensures
        timer_state(*final(timer)) == timer_state(*old(timer)).rewound(),
{
    timer.reset();
}

/// Reads whether a timer has finished: `Timer::finished`.
#[verifier::external_body]
pub(crate) fn timer_finished(timer: &Timer) -> (r: bool)
    ensures
        r == timer_state(*timer).finished,
{
    timer.finished()
}

/// Reads whether a timer finished in its latest tick: `Timer::just_finished`.
#[verifier::external_body]
pub(crate) fn timer_just_finished(timer: &Timer) -> (r: bool)
    ensures
        r == timer_state(*timer).just_finished(),
{
    timer.just_finished()
}

/// Reads the elapsed time in nanoseconds: `Timer::elapsed`, then
/// `Duration::as_nanos`.
#[verifier::external_body]
pub(crate) fn timer_elapsed(timer: &Timer) -> (r: u128)
    ensures
        r == timer_state(*timer).elapsed,
{
    timer.elapsed().as_nanos()
}

/// Reads the duration in nanoseconds: `Timer::duration`, then
/// `Duration::as_nanos`.
#[verifier::external_body]
pub(crate) fn timer_duration(timer: &Timer) -> (r: u128)
    ensures
        r == timer_state(*timer).duration,
{
    timer.duration().as_nanos()
}

/// Reads the mode: `Timer::mode`, with the engine's two modes told apart.
#[verifier::external_body]
pub(crate) fn timer_mode(timer: &Timer) -> (r: Mode)
    ensures
        r == timer_state(*timer).mode,
{
    match timer.mode() {
        TimerMode::Once => Mode::Once,
        TimerMode::Repeating => Mode::Repeating,
    }
}

/// The most that the game advances a timer by in one tick, in nanoseconds: a
/// frame time of `u64` and the time that the score adds to it.
pub open spec fn max_tick() -> nat {
    (2 * u64::MAX) as nat
}

/// Whether a timer can take any tick that the game may give it.
pub open spec fn timer_ready(timer: Timer) -> bool {
    timer_state(timer).can_tick(max_tick())
}

/// Advances a timer by `delta` nanoseconds, which may be more than a `u64`
/// holds.
pub(crate) fn advance(timer: &mut Timer, delta: u128)
    requires
        delta <= max_tick(),
        timer_state(*old(timer)).can_tick(delta as nat),
    ensures
        timer_state(*final(timer)) == timer_state(*old(timer)).ticked(delta as nat),
{
    let per_sec: u128 = NANOS_PER_SEC as u128;
    let secs: u64 = (delta / per_sec) as u64;
    let nanos: u32 = (delta % per_sec) as u32;
    assert(secs * NANOS_PER_SEC + nanos == delta) by (nonlinear_arith)
        requires
            secs == delta / (NANOS_PER_SEC as u128),
            nanos == delta % (NANOS_PER_SEC as u128),
    ;
    timer_tick(timer, secs, nanos);
}

/// Tells whether a timer can take a tick of `delta` nanoseconds.
pub(crate) fn check_tick(timer: &Timer, delta: u128) -> (r: bool)
    requires
        delta <= max_tick(),
    ensures
        r == timer_state(*timer).can_tick(delta as nat),
{
    let limit: u128 = 18_446_744_073_709_551_615_999_999_999 - delta;
    let repeating = match timer_mode(timer) {
        Mode::Repeating => true,
        Mode::Once => false,
    };
    timer_elapsed(timer) <= limit && (!repeating || timer_duration(timer) > 0)
}

/// The three timers of a game.
#[derive(Debug)]
pub struct GameTimers {
    /// Pause between two moves made by the player.
    pub manual: Timer,
    /// Interval between two steps of the falling piece.
    pub auto: Timer,
    /// Grace period before a piece that touched down is taken off the
    /// player's hands.
    pub rm_pieces: Timer,
}

impl GameTimers {
    /// Pause between two moves of the player, in milliseconds.
    pub const MANUAL_MILLIS: u64 = 100;

    /// Interval of the automatic fall, in milliseconds.
    pub const AUTO_MILLIS: u64 = 1000;

    /// Grace period after touching down, in milliseconds.
    pub const RM_PIECES_MILLIS: u64 = 300;

    /// Whether the timers can take any tick that the game may give them.
    /// This is more than any one tick asks for: see [`GameTimers::can_move`]
    /// and [`GameTimers::can_land`].
    pub open spec fn wf(self) -> bool {
        timer_ready(self.manual) && timer_ready(self.auto) && timer_ready(self.rm_pieces)
    }

    /// Whether the three timers run in an orderly way.
    pub open spec fn steady(self) -> bool {
        &&& timer_state(self.manual).steady()
        &&& timer_state(self.auto).steady()
        &&& timer_state(self.rm_pieces).steady()
    }

    /// Whether the pause timer can take a tick of `delta` nanoseconds, and
    /// the fall timer that tick and the time that the score adds.
    pub open spec fn can_move(self, delta: u64, score: Score) -> bool {
        &&& timer_state(self.manual).can_tick(delta as nat)
        &&& timer_state(self.auto).can_tick((delta + GameTimers::speed_offset(score)) as nat)
    }

    /// Whether the grace timer can take a tick of `delta` nanoseconds.
    pub open spec fn can_land(self, delta: u64) -> bool {
        timer_state(self.rm_pieces).can_tick(delta as nat)
    }

    /// Timers that are ready can take every tick of the game.
    pub proof fn lemma_ready(self, delta: u64, score: Score)
        requires
            self.wf(),
        ensures
            self.can_move(delta, score),
            self.can_land(delta),
    {
    }

    /// The timers at the start of a game: the pause and the grace period run
    /// once, the fall repeats, and each is about to finish at its first tick.
    pub fn new() -> (r: GameTimers)
        ensures
            timer_state(r.manual) == TimerState::primed(GameTimers::MANUAL_MILLIS, Mode::Once),
            timer_state(r.auto) == TimerState::primed(GameTimers::AUTO_MILLIS, Mode::Repeating),
            timer_state(r.rm_pieces) == TimerState::primed(GameTimers::RM_PIECES_MILLIS, Mode::Once),
            r.wf(),
            r.steady(),
    {
        let mut manual = timer_new(GameTimers::MANUAL_MILLIS, Mode::Once);
        timer_set_elapsed(&mut manual, GameTimers::MANUAL_MILLIS);
        let mut auto = timer_new(GameTimers::AUTO_MILLIS, Mode::Repeating);
        timer_set_elapsed(&mut auto, GameTimers::AUTO_MILLIS);
        let mut rm_pieces = timer_new(GameTimers::RM_PIECES_MILLIS, Mode::Once);
        timer_set_elapsed(&mut rm_pieces, GameTimers::RM_PIECES_MILLIS);
        GameTimers { manual, auto, rm_pieces }
    }

    /// Tells whether the timers can take any tick that the game may give
    /// them.
    pub fn is_ready(&self) -> (r: bool)
        ensures
            r == self.wf(),
    {
        let most: u128 = 2 * (u64::MAX as u128);
        check_tick(&self.manual, most) && check_tick(&self.auto, most) && check_tick(&self.rm_pieces, most)
    }

    /// Tells whether the timers of movement can take a tick of `delta`
    /// nanoseconds at the given score.
    pub fn check_move(&self, delta: u64, score: &Score) -> (r: bool)
        ensures
            r == self.can_move(delta, *score),
    {
        let offset = GameTimers::calculate_score_speed_offset(score);
        check_tick(&self.manual, delta as u128) && check_tick(&self.auto, delta as u128 + offset as u128)
    }

    /// Tells whether the grace timer can take a tick of `delta` nanoseconds.
    pub fn check_land(&self, delta: u64) -> (r: bool)
        ensures
            r == self.can_land(delta),
    {
        check_tick(&self.rm_pieces, delta as u128)
    }

    /// The time added to each tick of the automatic fall, in nanoseconds: one
    /// millisecond for every hundred points.
    pub open spec fn speed_offset(score: Score) -> nat {
        ((score.points / 100) * NANOS_PER_MILLI) as nat
    }

    /// How much faster the piece falls at the given score: the time to add to
    /// each tick of the automatic fall, in nanoseconds.
    #[must_use]
    pub fn calculate_score_speed_offset(score: &Score) -> (r: u64)
        ensures
            r == GameTimers::speed_offset(*score),
    {
        let level: u32 = score.points / 100;
        (level as u64) * NANOS_PER_MILLI
    }
}

} // verus!
