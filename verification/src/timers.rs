//! Countdown timers that gate every timed behaviour.

use vstd::prelude::*;

verus! {

/// What a timer does when its countdown reaches zero.
#[derive(Clone, Copy, Debug, PartialEq, Eq, Structural)]
pub enum TimerMode {
    /// Completes once and then stays finished.
    Once,
    /// Completes, then starts over from its configured duration.
    Repeating,
}

/// A countdown in milliseconds.
///
/// `duration` is what the countdown starts from; `remaining` is what is left
/// of the current run. Changing the duration leaves the current run alone and
/// takes effect the next time the countdown starts over.
#[derive(Clone, Copy, Debug, PartialEq, Eq, Structural)]
pub struct Timer {
    pub duration: u64,
    pub remaining: u64,
    pub mode: TimerMode,
    pub finished: bool,
    pub just_finished: bool,
}

impl Timer {
    /// The flags agree with each other and with the countdown.
    pub open spec fn wf(self) -> bool {
        &&& self.just_finished ==> self.finished
        &&& self.mode is Repeating && self.finished ==> self.just_finished
        &&& self.mode is Once && self.finished ==> self.remaining == 0
    }

    /// A tick of `delta` milliseconds brings the countdown to zero.
    pub open spec fn fires(self, delta: u64) -> bool {
        !(self.mode is Once && self.finished) && delta >= self.remaining
    }

    /// What is left after a repeating countdown has started over and the
    /// part of the tick beyond zero, `over`, has been taken off the new run.
    pub open spec fn carried(duration: u64, over: int) -> int {
        if duration == 0 {
            0
        } else {
            duration - over % (duration as int)
        }
    }

    /// The timer after a tick of `delta` milliseconds.
    pub open spec fn ticked(self, delta: u64) -> Timer {
        if self.mode is Once && self.finished {
            Timer { just_finished: false, ..self }
        } else if delta < self.remaining {
            Timer {
                remaining: (self.remaining - delta) as u64,
                finished: false,
                just_finished: false,
                ..self
            }
        } else if self.mode is Once {
            Timer { remaining: 0, finished: true, just_finished: true, ..self }
        } else {
            Timer {
                remaining: Self::carried(self.duration, delta - self.remaining) as u64,
                finished: true,
                just_finished: true,
                ..self
            }
        }
    }

    /// A countdown of `duration` milliseconds that has not started yet.
    pub open spec fn fresh(duration: u64, mode: TimerMode) -> Timer {
        Timer { duration, remaining: duration, mode, finished: false, just_finished: false }
    }

    /// A fresh countdown of `duration` milliseconds.
    pub fn new(duration: u64, mode: TimerMode) -> (t: Timer)
        ensures
            t == Timer::fresh(duration, mode),
            t.wf(),
    {
        Timer { duration, remaining: duration, mode, finished: false, just_finished: false }
    }

    /// Advances the countdown by `delta` milliseconds.
    pub fn tick(&mut self, delta: u64)
        ensures
            *final(self) == old(self).ticked(delta),
            final(self).just_finished == old(self).fires(delta),
            old(self).wf() ==> final(self).wf(),
    {
        match self.mode {
            TimerMode::Once => {
                if self.finished {
                    self.just_finished = false;
                } else if delta < self.remaining {
                    self.remaining = self.remaining - delta;
                    self.finished = false;
                    self.just_finished = false;
                } else {
                    self.remaining = 0;
                    self.finished = true;
                    self.just_finished = true;
                }
            },
            TimerMode::Repeating => {
                if delta < self.remaining {
                    self.remaining = self.remaining - delta;
                    self.finished = false;
                    self.just_finished = false;
                } else {
                    let over: u64 = delta - self.remaining;
                    self.remaining = if self.duration == 0 {
                        0
                    } else {
                        self.duration - over % self.duration
                    };
                    self.finished = true;
                    self.just_finished = true;
                }
            },
        }
    }

    /// True only on the tick that brought the countdown to zero.
    pub fn just_finished(&self) -> (b: bool)
        ensures
            b == self.just_finished,
    {
        self.just_finished
    }

    /// True once a `Once` timer has completed, and on the completing tick of a `Repeating` one.
    pub fn finished(&self) -> (b: bool)
        ensures
            b == self.finished,
    {
        self.finished
    }

    pub fn duration(&self) -> (d: u64)
        ensures
            d == self.duration,
    {
        self.duration
    }

    pub fn remaining(&self) -> (d: u64)
        ensures
            d == self.remaining,
    {
        self.remaining
    }

    pub fn mode(&self) -> (m: TimerMode)
        ensures
            m == self.mode,
    {
        self.mode
    }

    /// Sets the duration of the runs to come; the current run keeps what it has left.
    pub fn set_duration(&mut self, duration: u64)
        ensures
            *final(self) == (Timer { duration, ..*old(self) }),
            old(self).wf() ==> final(self).wf(),
    {
        self.duration = duration;
    }
}

/// Nanoseconds in a millisecond.
pub const NANOS_PER_MILLI: u32 = 1_000_000;

/// Turns the length of each frame, given in nanoseconds, into the whole
/// milliseconds that the timers count in. The part of a millisecond that a
/// frame leaves over is carried into the next frame, so no time is lost.
#[derive(Clone, Copy, Debug, PartialEq, Eq, Structural)]
pub struct FrameClock {
    /// Nanoseconds left over from the frames so far; less than a millisecond.
    pub carry: u32,
}

impl FrameClock {
    /// What is carried is less than a millisecond.
    pub open spec fn wf(self) -> bool {
        self.carry < NANOS_PER_MILLI
    }

    /// The milliseconds that a frame of `elapsed` nanoseconds completes,
    /// counting what was carried; a frame longer than the largest tick counts
    /// as the largest tick.
    pub open spec fn millis(self, elapsed: u64) -> int {
        let whole = (self.carry + elapsed) / (NANOS_PER_MILLI as int);
        if whole > u32::MAX {
            u32::MAX as int
        } else {
            whole
        }
    }

    /// What a frame of `elapsed` nanoseconds leaves over.
    pub open spec fn left_over(self, elapsed: u64) -> int {
        (self.carry + elapsed) % (NANOS_PER_MILLI as int)
    }

    /// A clock that carries nothing.
    pub fn new() -> (c: FrameClock)
        ensures
            c.carry == 0,
            c.wf(),
    {
        FrameClock { carry: 0 }
    }

    /// Takes in a frame of `elapsed` nanoseconds and hands out the
    /// milliseconds to tick by.
    pub fn advance(&mut self, elapsed: u64) -> (delta: u32)
        ensures
            delta as int == old(self).millis(elapsed),
            final(self).carry as int == old(self).left_over(elapsed),
            final(self).wf(),
    {
        let total: u128 = self.carry as u128 + elapsed as u128;
        let whole: u128 = total / 1_000_000;
        self.carry = (total % 1_000_000) as u32;
        if whole > 0xFFFF_FFFF {
            0xFFFF_FFFF
        } else {
            whole as u32
        }
    }
}

/// Gates the creation of enemies.
pub struct EnemySpawnTimer {
    pub timer: Timer,
}

/// Paces the animation frames of the player and of the enemies.
pub struct MoveTimer {
    pub timer: Timer,
}

/// Paces contact damage, so that how often the player can be hit does not depend on the frame rate.
pub struct PlayerHealthReduceTimer {
    pub timer: Timer,
}

impl Default for EnemySpawnTimer {
    fn default() -> (r: Self)
        ensures
            r.timer == Timer::fresh(10, TimerMode::Repeating),
    {
        EnemySpawnTimer { timer: Timer::new(10, TimerMode::Repeating) }
    }
}

impl Default for MoveTimer {
    fn default() -> (r: Self)
        ensures
            r.timer == Timer::fresh(200, TimerMode::Repeating),
    {
        MoveTimer { timer: Timer::new(200, TimerMode::Repeating) }
    }
}

impl Default for PlayerHealthReduceTimer {
    fn default() -> (r: Self)
        ensures
            r.timer == Timer::fresh(200, TimerMode::Repeating),
    {
        PlayerHealthReduceTimer { timer: Timer::new(200, TimerMode::Repeating) }
    }
}

/// A `Once` timer completes a single time: once finished it stays finished
/// and no later tick reports a completion.
pub proof fn lemma_once_fires_once(t: Timer, delta: u64)
    requires
        t.mode is Once,
        t.finished,
    ensures
        t.ticked(delta).finished,
        !t.ticked(delta).just_finished,
        !t.fires(delta),
{
}

/// A timer that has not completed by a tick of `a` completes on the following
/// tick of `b` exactly when a single tick of `a + b` would have completed it:
/// completion is reported on the tick that crosses zero, wherever the ticks fall.
pub proof fn lemma_ticks_add_up(t: Timer, a: u64, b: u64)
    requires
        !t.fires(a),
        !(t.mode is Once && t.finished),
        a + b <= u64::MAX,
    ensures
        t.ticked(a).fires(b) == t.fires((a + b) as u64),
        t.ticked(a).ticked(b) == t.ticked((a + b) as u64),
{
}

/// A repeating timer with a positive duration starts over with between one
/// millisecond and a whole duration left, and what it carries over is what
/// the tick went beyond zero, counted in whole runs.
pub proof fn lemma_repeating_starts_over(t: Timer, delta: u64)
    requires
        t.mode is Repeating,
        t.duration > 0,
        t.fires(delta),
    ensures
        0 < t.ticked(delta).remaining <= t.duration,
        (delta - t.remaining + t.ticked(delta).remaining) % (t.duration as int) == 0,
{
    let over: int = delta - t.remaining;
    let d: int = t.duration as int;
    assert((over + (d - over % d)) % d == 0) by (nonlinear_arith)
        requires
            d > 0,
            over >= 0,
    ;
}

/// Changing the duration never changes what is left of the current run.
pub proof fn lemma_duration_change_is_deferred(t: Timer, duration: u64, delta: u64)
    requires
        delta < t.remaining,
    ensures
        (Timer { duration, ..t }).remaining == t.remaining,
        (Timer { duration, ..t }).fires(delta) == t.fires(delta),
        (Timer { duration, ..t }).ticked(delta).remaining == t.ticked(delta).remaining,
{
}

/// The clock loses no time: the milliseconds handed out and what is carried
/// add up to what was carried before plus the frame, unless the frame was
/// longer than the largest tick.
pub proof fn lemma_clock_keeps_time(c: FrameClock, elapsed: u64)
    requires
        (c.carry + elapsed) / (NANOS_PER_MILLI as int) <= u32::MAX,
    ensures
        c.millis(elapsed) * NANOS_PER_MILLI + c.left_over(elapsed) == c.carry + elapsed,
        0 <= c.left_over(elapsed) < NANOS_PER_MILLI,
{
}

} // verus!
