//! The anchor-model timer engine.
//!
//! Elapsed time is never accumulated tick by tick: a running timer stores the
//! monotonic reading at which the current run began (the anchor) plus what
//! earlier runs accumulated, and elapsed time is `accumulated + (now - anchor)`.

use crate::clock::Clock;
use vstd::prelude::*;

verus! {

/// The engine's lifecycle state.
#[derive(Debug, Clone, Copy, PartialEq, Eq, Structural)]
pub enum TimerState {
    Idle,
    Running,
    Paused,
    Finished,
}

/// The abstract state of a [`TimerCore`]: everything but the clock.
pub struct TimerModel {
    pub state: TimerState,
    pub wall_anchor_ms: u64,
    pub mono_anchor_ms: u64,
    pub accumulated_ms: u64,
    pub limit_ms: Option<u64>,
}

/// `a + b`, capped at `u64::MAX`.
pub open spec fn sat_add(a: u64, b: u64) -> u64 {
    if a + b > u64::MAX { u64::MAX } else { (a + b) as u64 }
}

/// `a - b`, floored at zero.
pub open spec fn sat_sub(a: u64, b: u64) -> u64 {
    if a >= b { (a - b) as u64 } else { 0 }
}

impl TimerModel {
    /// Length of the current run at monotonic reading `mono`.
    pub open spec fn segment(self, mono: u64) -> u64 {
        sat_sub(mono, self.mono_anchor_ms)
    }

    /// Total elapsed time at monotonic reading `mono`.
    pub open spec fn elapsed(self, mono: u64) -> u64 {
        if self.state == TimerState::Running {
            sat_add(self.accumulated_ms, self.segment(mono))
        } else {
            self.accumulated_ms
        }
    }

    /// Time left before the limit at reading `mono`; `None` for a stopwatch.
    pub open spec fn remaining(self, mono: u64) -> Option<u64> {
        match self.limit_ms {
            Some(limit) => Some(sat_sub(limit, self.elapsed(mono))),
            None => None,
        }
    }

    /// Back to an empty, idle timer; the limit is kept.
    pub open spec fn reset(self) -> TimerModel {
        TimerModel {
            state: TimerState::Idle,
            wall_anchor_ms: 0,
            mono_anchor_ms: 0,
            accumulated_ms: 0,
            limit_ms: self.limit_ms,
        }
    }

    /// The limit changes only while idle.
    pub open spec fn set_limit(self, limit: Option<u64>) -> TimerModel {
        if self.state == TimerState::Idle {
            TimerModel { limit_ms: limit, ..self }
        } else {
            self
        }
    }

    /// Changes the limit of the session in progress: the elapsed time and
    /// the anchors are kept, so the remaining time follows the new limit; a
    /// finished timer is left alone.
    pub open spec fn retarget(self, limit: Option<u64>) -> TimerModel {
        if self.state == TimerState::Finished {
            self
        } else {
            TimerModel { limit_ms: limit, ..self }
        }
    }

    /// A paused timer holding `elapsed` and `limit`, with cleared anchors.
    pub open spec fn restore(self, elapsed: u64, limit: Option<u64>) -> TimerModel {
        TimerModel {
            state: TimerState::Paused,
            wall_anchor_ms: 0,
            mono_anchor_ms: 0,
            accumulated_ms: elapsed,
            limit_ms: limit,
        }
    }

    /// Starting at readings `wall` and `mono`: a running timer is left alone,
    /// a finished one starts over from zero, any other resumes.
    pub open spec fn start(self, wall: u64, mono: u64) -> TimerModel {
        if self.state == TimerState::Running {
            self
        } else {
            let base = if self.state == TimerState::Finished { self.reset() } else { self };
            TimerModel {
                state: TimerState::Running,
                wall_anchor_ms: wall,
                mono_anchor_ms: mono,
                ..base
            }
        }
    }

    /// Pausing at reading `mono` folds the current run into the accumulated time.
    pub open spec fn pause(self, mono: u64) -> TimerModel {
        if self.state == TimerState::Running {
            TimerModel {
                state: TimerState::Paused,
                accumulated_ms: sat_add(self.accumulated_ms, self.segment(mono)),
                ..self
            }
        } else {
            self
        }
    }

    /// Whether a poll at reading `mono` finishes the countdown.
    pub open spec fn poll_fires(self, mono: u64) -> bool {
        self.state == TimerState::Running && self.limit_ms is Some
            && self.elapsed(mono) >= self.limit_ms->0
    }

    /// The timer after a poll at reading `mono`: a countdown that reached its
    /// limit finishes with exactly the limit accumulated.
    pub open spec fn poll(self, mono: u64) -> TimerModel {
        if self.poll_fires(mono) {
            TimerModel {
                state: TimerState::Finished,
                accumulated_ms: self.limit_ms->0,
                ..self
            }
        } else {
            self
        }
    }
}

/// Pausing freezes the elapsed time: after a pause at reading `p`, the elapsed
/// time at any later reading is what it was at `p`.
pub proof fn law_pause_freezes_elapsed(m: TimerModel, p: u64, later: u64)
    ensures
        m.pause(p).elapsed(later) == m.elapsed(p),
        m.state == TimerState::Running ==> m.pause(p).state == TimerState::Paused,
{
}

/// Resuming continues where the pause left off: paused at `p` and started
/// again at `s`, the elapsed time at a reading `t >= s` is the elapsed time at
/// `p` plus `t - s`; time spent paused is never counted.
pub proof fn law_resume_continues(m: TimerModel, p: u64, w: u64, s: u64, t: u64)
    requires
        m.state != TimerState::Finished,
        s <= t,
    ensures
        m.pause(p).start(w, s).elapsed(t) == sat_add(m.elapsed(p), (t - s) as u64),
{
}

/// No drift: polling a running timer that has not reached a limit changes
/// nothing, so elapsed time is always `accumulated + (now - anchor)` however
/// many polls happened in between.
pub proof fn law_poll_below_limit_changes_nothing(m: TimerModel, t: u64)
    requires
        m.limit_ms is None || m.elapsed(t) < m.limit_ms->0,
    ensures
        !m.poll_fires(t),
        m.poll(t) == m,
{
}

/// The elapsed time of a running timer follows the anchor model exactly.
pub proof fn law_running_elapsed_is_anchor_span(m: TimerModel, t: u64)
    requires
        m.state == TimerState::Running,
        m.mono_anchor_ms <= t,
        m.accumulated_ms + (t - m.mono_anchor_ms) <= u64::MAX,
    ensures
        m.elapsed(t) == m.accumulated_ms + (t - m.mono_anchor_ms),
{
}

/// A countdown finishes exactly at its limit: the poll that sees the limit
/// reached reports it, caps elapsed at the limit and leaves nothing remaining.
pub proof fn law_countdown_finishes_at_limit(m: TimerModel, t: u64, later: u64)
    requires
        m.state == TimerState::Running,
        m.limit_ms is Some,
        m.elapsed(t) >= m.limit_ms->0,
    ensures
        m.poll_fires(t),
        m.poll(t).state == TimerState::Finished,
        m.poll(t).elapsed(later) == m.limit_ms->0,
        m.poll(t).remaining(later) == Some(0u64),
{
}

/// A countdown reports its finish once: after a poll that fired, further polls
/// neither fire nor change anything.
pub proof fn law_poll_fires_once(m: TimerModel, t: u64, t2: u64)
    requires
        m.poll_fires(t),
    ensures
        !m.poll(t).poll_fires(t2),
        m.poll(t).poll(t2) == m.poll(t),
{
}

/// Reset clears everything but the limit.
pub proof fn law_reset_clears(m: TimerModel, t: u64)
    ensures
        m.reset().state == TimerState::Idle,
        m.reset().elapsed(t) == 0,
        m.reset().wall_anchor_ms == 0,
        m.reset().limit_ms == m.limit_ms,
{
}

/// A restored session is paused at the restored elapsed time, and resuming it
/// continues from there.
pub proof fn law_restore_then_resume(
    m: TimerModel,
    e: u64,
    limit: Option<u64>,
    t: u64,
    w: u64,
    s: u64,
    u: u64,
)
    requires
        s <= u,
    ensures
        m.restore(e, limit).state == TimerState::Paused,
        m.restore(e, limit).elapsed(t) == e,
        m.restore(e, limit).start(w, s).elapsed(u) == sat_add(e, (u - s) as u64),
{
}

/// The limit can only be changed while idle.
pub proof fn law_limit_changes_only_when_idle(m: TimerModel, limit: Option<u64>)
    ensures
        m.state != TimerState::Idle ==> m.set_limit(limit) == m,
        m.state == TimerState::Idle ==> m.set_limit(limit).limit_ms == limit,
{
}

/// Changing the limit of a running or paused session keeps its elapsed time
/// and recomputes the remaining time from the new limit.
pub proof fn law_retarget_keeps_elapsed(m: TimerModel, limit: u64, t: u64)
    requires
        m.state == TimerState::Running || m.state == TimerState::Paused,
    ensures
        m.retarget(Some(limit)).state == m.state,
        m.retarget(Some(limit)).elapsed(t) == m.elapsed(t),
        m.retarget(Some(limit)).remaining(t) == Some(sat_sub(limit, m.elapsed(t))),
{
}

/// Elapsed time never decreases as the monotonic clock moves forward.
pub proof fn law_elapsed_never_decreases(m: TimerModel, t1: u64, t2: u64)
    requires
        t1 <= t2,
    ensures
        m.elapsed(t1) <= m.elapsed(t2),
{
}

/// Starting records the wall clock, and a finished timer starts over from zero.
pub proof fn law_start_anchors_and_restarts_finished(m: TimerModel, w: u64, s: u64, t: u64)
    requires
        m.state != TimerState::Running,
        s <= t,
    ensures
        m.start(w, s).state == TimerState::Running,
        m.start(w, s).wall_anchor_ms == w,
        m.state == TimerState::Finished ==> m.start(w, s).elapsed(t) == t - s,
{
}

/// While a countdown has not overrun, elapsed and remaining add up to the limit.
pub proof fn law_remaining_complements_elapsed(m: TimerModel, t: u64)
    requires
        m.limit_ms is Some,
        m.elapsed(t) <= m.limit_ms->0,
    ensures
        m.remaining(t) == Some((m.limit_ms->0 - m.elapsed(t)) as u64),
{
}

/// Whether the readings `after` are `before` followed by exactly one new reading.
pub open spec fn one_more_reading(before: Seq<u64>, after: Seq<u64>) -> bool {
    after.len() == before.len() + 1 && after.drop_last() == before
}

/// Pausing right after a run that started at monotonic reading `s` counts
/// exactly that run: paused at reading `t >= s`, the elapsed time from then
/// on is the time accumulated before plus `t - s` (capped at `u64::MAX`),
/// and never less than what had accumulated before the run.
pub proof fn law_pause_counts_the_run(m: TimerModel, w: u64, s: u64, t: u64, later: u64)
    requires
        m.state == TimerState::Idle || m.state == TimerState::Paused,
        s <= t,
    ensures
        m.start(w, s).pause(t).state == TimerState::Paused,
        m.start(w, s).pause(t).elapsed(later) == sat_add(m.accumulated_ms, (t - s) as u64),
        m.start(w, s).pause(t).elapsed(later) >= m.accumulated_ms,
        m.accumulated_ms + (t - s) <= u64::MAX ==> m.start(w, s).pause(t).elapsed(later)
            == m.accumulated_ms + (t - s),
{
}

/// The engine: a state machine over a clock.
pub struct TimerCore<C: Clock> {
    clock: C,
    state: TimerState,
    wall_anchor_ms: u64,
    mono_anchor_ms: u64,
    accumulated_ms: u64,
    limit_ms: Option<u64>,
    /// The monotonic readings this engine took from its clock, in order.
    mono_readings: Ghost<Seq<u64>>,
    /// The wall-clock readings this engine took from its clock, in order.
    wall_readings: Ghost<Seq<u64>>,
}

impl<C: Clock> View for TimerCore<C> {
    type V = TimerModel;

    closed spec fn view(&self) -> TimerModel {
        TimerModel {
            state: self.state,
            wall_anchor_ms: self.wall_anchor_ms,
            mono_anchor_ms: self.mono_anchor_ms,
            accumulated_ms: self.accumulated_ms,
            limit_ms: self.limit_ms,
        }
    }
}

impl<C: Clock> TimerCore<C> {
    /// An idle timer; `Some(limit)` makes it a countdown, `None` a stopwatch.
    pub fn new(clock: C, limit_ms: Option<u64>) -> (t: Self)
        ensures
            t@ == (TimerModel {
                state: TimerState::Idle,
                wall_anchor_ms: 0,
                mono_anchor_ms: 0,
                accumulated_ms: 0,
                limit_ms,
            }),
            t.clock_spec() == clock,
            t.mono_readings() == Seq::<u64>::empty(),
            t.wall_readings() == Seq::<u64>::empty(),
    {
        TimerCore {
            clock,
            state: TimerState::Idle,
            wall_anchor_ms: 0,
            mono_anchor_ms: 0,
            accumulated_ms: 0,
            limit_ms,
            mono_readings: Ghost(Seq::empty()),
            wall_readings: Ghost(Seq::empty()),
        }
    }

    /// The monotonic readings this engine took from its clock, in order.
    pub closed spec fn mono_readings(&self) -> Seq<u64> {
        self.mono_readings@
    }

    /// The wall-clock readings this engine took from its clock, in order.
    pub closed spec fn wall_readings(&self) -> Seq<u64> {
        self.wall_readings@
    }

    /// Reads the monotonic clock, keeping the reading.
    fn read_mono(&mut self) -> (m: u64)
        ensures
            final(self).mono_readings() == old(self).mono_readings().push(m),
            final(self).wall_readings() == old(self).wall_readings(),
            final(self)@ == old(self)@,
            final(self).clock_spec() == old(self).clock_spec(),
    {
        let m = self.clock.monotonic_ms();
        self.mono_readings = Ghost(self.mono_readings@.push(m));
        m
    }

    /// Reads the wall clock, keeping the reading.
    fn read_wall(&mut self) -> (w: u64)
        ensures
            final(self).wall_readings() == old(self).wall_readings().push(w),
            final(self).mono_readings() == old(self).mono_readings(),
            final(self)@ == old(self)@,
            final(self).clock_spec() == old(self).clock_spec(),
    {
        let w = self.clock.wall_ms();
        self.wall_readings = Ghost(self.wall_readings@.push(w));
        w
    }

    /// The clock, as a spec value.
    pub closed spec fn clock_spec(&self) -> C {
        self.clock
    }

    /// The clock the timer reads.
    pub fn clock(&self) -> (c: &C)
        ensures
            *c == self.clock_spec(),
    {
        &self.clock
    }

    pub fn state(&self) -> (s: TimerState)
        ensures
            s == self@.state,
    {
        self.state
    }

    /// Wall-clock reading at the start of the current run (0 when none).
    pub fn wall_anchor_ms(&self) -> (w: u64)
        ensures
            w == self@.wall_anchor_ms,
    {
        self.wall_anchor_ms
    }

    pub fn limit_ms(&self) -> (l: Option<u64>)
        ensures
            l == self@.limit_ms,
    {
        self.limit_ms
    }

    /// Changes the limit; ignored unless the timer is idle.
    pub fn set_limit(&mut self, limit_ms: Option<u64>)
        ensures
            final(self)@ == old(self)@.set_limit(limit_ms),
            final(self).clock_spec() == old(self).clock_spec(),
            final(self).mono_readings() == old(self).mono_readings(),
            final(self).wall_readings() == old(self).wall_readings(),
    {
        if self.state == TimerState::Idle {
            self.limit_ms = limit_ms;
        }
    }

    /// Changes the limit of the session in progress, keeping its elapsed
    /// time; ignored once finished.
    pub fn retarget(&mut self, limit_ms: Option<u64>)
        ensures
            final(self)@ == old(self)@.retarget(limit_ms),
            final(self).clock_spec() == old(self).clock_spec(),
            final(self).mono_readings() == old(self).mono_readings(),
            final(self).wall_readings() == old(self).wall_readings(),
    {
        if self.state != TimerState::Finished {
            self.limit_ms = limit_ms;
        }
    }

    /// Brings back a persisted session as a paused timer holding `elapsed_ms`.
    pub fn restore(&mut self, elapsed_ms: u64, limit_ms: Option<u64>)
        ensures
            final(self)@ == old(self)@.restore(elapsed_ms, limit_ms),
            final(self).clock_spec() == old(self).clock_spec(),
            final(self).mono_readings() == old(self).mono_readings(),
            final(self).wall_readings() == old(self).wall_readings(),
    {
        self.state = TimerState::Paused;
        self.accumulated_ms = elapsed_ms;
        self.limit_ms = limit_ms;
        self.wall_anchor_ms = 0;
        self.mono_anchor_ms = 0;
    }

    /// Clears the timer back to idle, keeping its limit.
    pub fn reset(&mut self)
        ensures
            final(self)@ == old(self)@.reset(),
            final(self).clock_spec() == old(self).clock_spec(),
            final(self).mono_readings() == old(self).mono_readings(),
            final(self).wall_readings() == old(self).wall_readings(),
    {
        self.state = TimerState::Idle;
        self.accumulated_ms = 0;
        self.wall_anchor_ms = 0;
        self.mono_anchor_ms = 0;
    }

    /// Starts (or resumes) with the given clock readings.
    pub fn start_at(&mut self, wall_now: u64, mono_now: u64)
        ensures
            final(self)@ == old(self)@.start(wall_now, mono_now),
            final(self).clock_spec() == old(self).clock_spec(),
            final(self).mono_readings() == old(self).mono_readings(),
            final(self).wall_readings() == old(self).wall_readings(),
    {
        match self.state {
            TimerState::Running => return,
            TimerState::Finished => self.reset(),
            _ => {},
        }
        self.wall_anchor_ms = wall_now;
        self.mono_anchor_ms = mono_now;
        self.state = TimerState::Running;
    }

    /// Starts (or resumes) at the clock's current readings.
    pub fn start(&mut self)
        ensures
            exists|w: u64, m: u64| final(self)@ == old(self)@.start(w, m),
            final(self).clock_spec() == old(self).clock_spec(),
            old(self)@.state == TimerState::Running ==> final(self)@ == old(self)@ && final(self).mono_readings() == old(self).mono_readings() && final(self).wall_readings() == old(self).wall_readings(),
            old(self)@.state != TimerState::Running ==> final(self).mono_readings().len()
                == old(self).mono_readings().len() + 1 && final(self).mono_readings().drop_last()
                == old(self).mono_readings() && final(self).wall_readings().len()
                == old(self).wall_readings().len() + 1 && final(self).wall_readings().drop_last()
                == old(self).wall_readings() && final(self)@ == old(self)@.start(
                final(self).wall_readings().last(),
                final(self).mono_readings().last(),
            ),
    {
        if self.state == TimerState::Running {
            assert(self@ == old(self)@.start(0, 0));
            return;
        }
        let wall = self.read_wall();
        let mono = self.read_mono();
        self.start_at(wall, mono);
        assert(self.mono_readings().drop_last() =~= old(self).mono_readings());
        assert(self.wall_readings().drop_last() =~= old(self).wall_readings());
    }

    /// Pauses at monotonic reading `mono_now`; ignored unless running.
    pub fn pause_at(&mut self, mono_now: u64)
        ensures
            final(self)@ == old(self)@.pause(mono_now),
            final(self).clock_spec() == old(self).clock_spec(),
            final(self).mono_readings() == old(self).mono_readings(),
            final(self).wall_readings() == old(self).wall_readings(),
    {
        if self.state != TimerState::Running {
            return;
        }
        let segment = self.segment_at(mono_now);
        self.accumulated_ms = self.accumulated_ms.saturating_add(segment);
        self.state = TimerState::Paused;
    }

    /// Pauses at the clock's current reading; ignored unless running.
    pub fn pause(&mut self)
        ensures
            exists|m: u64| final(self)@ == old(self)@.pause(m),
            final(self).clock_spec() == old(self).clock_spec(),
            final(self).wall_readings() == old(self).wall_readings(),
            old(self)@.state != TimerState::Running ==> final(self)@ == old(self)@ && final(self).mono_readings() == old(self).mono_readings(),
            old(self)@.state == TimerState::Running ==> final(self).mono_readings().len()
                == old(self).mono_readings().len() + 1 && final(self).mono_readings().drop_last()
                == old(self).mono_readings() && final(self)@ == old(self)@.pause(
                final(self).mono_readings().last(),
            ),
    {
        if self.state != TimerState::Running {
            assert(self@ == old(self)@.pause(0));
            return;
        }
        let mono = self.read_mono();
        self.pause_at(mono);
        assert(self.mono_readings().drop_last() =~= old(self).mono_readings());
    }

    fn segment_at(&self, mono_now: u64) -> (s: u64)
        ensures
            s == self@.segment(mono_now),
    {
        mono_now.saturating_sub(self.mono_anchor_ms)
    }

    /// Elapsed time at monotonic reading `mono_now`.
    pub fn elapsed_at(&self, mono_now: u64) -> (e: u64)
        ensures
            e == self@.elapsed(mono_now),
    {
        match self.state {
            TimerState::Running => self.accumulated_ms.saturating_add(self.segment_at(mono_now)),
            _ => self.accumulated_ms,
        }
    }

    /// Elapsed time now; only a running timer reads the clock.
    pub fn elapsed_ms(&self) -> (e: u64)
        ensures
            exists|m: u64| e == self@.elapsed(m),
            self@.state != TimerState::Running ==> e == self@.accumulated_ms,
    {
        if self.state != TimerState::Running {
            assert(self.accumulated_ms == self@.elapsed(0));
            return self.accumulated_ms;
        }
        let mono = self.clock.monotonic_ms();
        self.elapsed_at(mono)
    }

    /// Time left at monotonic reading `mono_now`; `None` for a stopwatch.
    pub fn remaining_at(&self, mono_now: u64) -> (r: Option<u64>)
        ensures
            r == self@.remaining(mono_now),
    {
        let limit = self.limit_ms?;
        Some(limit.saturating_sub(self.elapsed_at(mono_now)))
    }

    /// Time left now; `None` for a stopwatch.
    pub fn remaining_ms(&self) -> (r: Option<u64>)
        ensures
            exists|m: u64| r == self@.remaining(m),
            self@.limit_ms is None ==> r is None,
    {
        let limit = match self.limit_ms {
            Some(limit) => limit,
            None => {
                assert(self@.remaining(0) is None);
                return None;
            },
        };
        let elapsed = self.elapsed_ms();
        let r = Some(limit.saturating_sub(elapsed));
        proof {
            let m = choose|m: u64| elapsed == self@.elapsed(m);
            assert(r == self@.remaining(m));
        }
        r
    }

    /// Finishes a running countdown whose elapsed time at `mono_now` reached
    /// the limit; returns whether it finished on this call.
    pub fn poll_at(&mut self, mono_now: u64) -> (fired: bool)
        ensures
            fired == old(self)@.poll_fires(mono_now),
            final(self)@ == old(self)@.poll(mono_now),
            final(self).clock_spec() == old(self).clock_spec(),
            final(self).mono_readings() == old(self).mono_readings(),
            final(self).wall_readings() == old(self).wall_readings(),
    {
        if self.state != TimerState::Running {
            return false;
        }
        let limit = match self.limit_ms {
            Some(limit) => limit,
            None => return false,
        };
        if self.elapsed_at(mono_now) >= limit {
            self.accumulated_ms = limit;
            self.state = TimerState::Finished;
            return true;
        }
        false
    }

    /// Polls at the clock's current reading.
    pub fn poll(&mut self) -> (fired: bool)
        ensures
            exists|m: u64| fired == old(self)@.poll_fires(m) && final(self)@ == old(self)@.poll(m),
            final(self).clock_spec() == old(self).clock_spec(),
            final(self).wall_readings() == old(self).wall_readings(),
            !(old(self)@.state == TimerState::Running && old(self)@.limit_ms is Some) ==> !fired
                && final(self)@ == old(self)@ && final(self).mono_readings() == old(self).mono_readings(),
            old(self)@.state == TimerState::Running && old(self)@.limit_ms is Some ==> final(self).mono_readings().len() == old(self).mono_readings().len() + 1 && final(self).mono_readings().drop_last() == old(self).mono_readings() && fired == old(self)@.poll_fires(final(self).mono_readings().last()) && final(self)@ == old(self)@.poll(
                final(self).mono_readings().last(),
            ),
    {
        if self.state != TimerState::Running || self.limit_ms.is_none() {
            assert(!old(self)@.poll_fires(0) && self@ == old(self)@.poll(0));
            return false;
        }
        let mono = self.read_mono();
        let fired = self.poll_at(mono);
        assert(self.mono_readings().drop_last() =~= old(self).mono_readings());
        fired
    }
}

} // verus!
