//! The decisions of the timer's worker thread.
//!
//! The thread itself (a channel with a 100 ms receive timeout, and the
//! callback that publishes snapshots) lives with the application; each turn
//! of its loop hands the received command, if any, to [`run_tick`], which
//! applies it, polls the countdown and decides whether the new snapshot is
//! worth publishing.

use crate::clock::Clock;
use crate::timer::{one_more_reading, TimerCore, TimerModel, TimerState};
use vstd::prelude::*;

verus! {

/// The worker's tick, in milliseconds: how long it waits for a command.
pub const TICK_MS: u64 = 100;

/// What the worker publishes.
#[derive(Debug, Clone, Copy, PartialEq, Eq, Structural)]
pub struct TimerSnapshot {
    pub state: TimerState,
    pub elapsed_ms: u64,
    pub remaining_ms: Option<u64>,
    pub limit_ms: Option<u64>,
}

/// A command sent to the worker.
#[derive(Debug, Clone, Copy, PartialEq, Eq, Structural)]
pub enum Command {
    Start,
    Pause,
    Reset,
    SetLimit(Option<u64>),
    /// Change the limit of the session in progress, keeping its elapsed time.
    Retarget(Option<u64>),
    /// Put back a persisted session's elapsed time and stop in `Paused`.
    Restore { elapsed_ms: u64, limit_ms: Option<u64> },
    Shutdown,
}

/// The timer state after `cmd`, for some clock readings `w` (wall) and `m` (monotonic).
pub open spec fn command_effect(model: TimerModel, cmd: Command, w: u64, m: u64) -> TimerModel {
    match cmd {
        Command::Start => model.start(w, m),
        Command::Pause => model.pause(m),
        Command::Reset => model.reset(),
        Command::SetLimit(limit) => model.set_limit(limit),
        Command::Retarget(limit) => model.retarget(limit),
        Command::Restore { elapsed_ms, limit_ms } => model.restore(elapsed_ms, limit_ms),
        Command::Shutdown => model,
    }
}

/// The timer after one turn of the worker: the received command applied
/// (at readings `w`, `m`), then a poll at reading `p`.
pub open spec fn tick_effect(model: TimerModel, cmd: Option<Command>, w: u64, m: u64, p: u64) -> TimerModel {
    match cmd {
        Some(c) => command_effect(model, c, w, m).poll(p),
        None => model.poll(p),
    }
}

/// The engine the worker starts with: restored (and paused) before the first
/// snapshot when a persisted session is handed in, so the first snapshot
/// never shows an idle zero that would settle the restored session.
pub fn worker_core<C: Clock>(clock: C, limit_ms: Option<u64>, restore: Option<(u64, Option<u64>)>) -> (core:
    TimerCore<C>)
    ensures
        match restore {
            Some((elapsed, limit)) => core@.state == TimerState::Paused && core@.accumulated_ms
                == elapsed && core@.limit_ms == limit,
            None => core@.state == TimerState::Idle && core@.accumulated_ms == 0 && core@.limit_ms
                == limit_ms,
        },
{
    let mut core = TimerCore::new(clock, limit_ms);
    if let Some((elapsed_ms, limit)) = restore {
        core.restore(elapsed_ms, limit);
    }
    core
}

/// Applies one command; returns `false` for `Shutdown`, which ends the worker.
pub fn apply_command<C: Clock>(core: &mut TimerCore<C>, cmd: Command) -> (keep_going: bool)
    ensures
        keep_going == (cmd != Command::Shutdown),
        exists|w: u64, m: u64| final(core)@ == command_effect(old(core)@, cmd, w, m),
        final(core).clock_spec() == old(core).clock_spec(),
        cmd != Command::Start && cmd != Command::Pause ==> final(core)@ == command_effect(
            old(core)@,
            cmd,
            0,
            0,
        ) && final(core).mono_readings() == old(core).mono_readings() && final(core).wall_readings()
            == old(core).wall_readings(),
        cmd == Command::Pause && old(core)@.state == TimerState::Running ==> one_more_reading(
            old(core).mono_readings(),
            final(core).mono_readings(),
        ) && final(core)@ == old(core)@.pause(final(core).mono_readings().last()),
        cmd == Command::Start && old(core)@.state != TimerState::Running ==> one_more_reading(
            old(core).mono_readings(),
            final(core).mono_readings(),
        ) && one_more_reading(old(core).wall_readings(), final(core).wall_readings())
            && final(core)@ == old(core)@.start(
            final(core).wall_readings().last(),
            final(core).mono_readings().last(),
        ),
{
    match cmd {
        Command::Start => core.start(),
        Command::Pause => core.pause(),
        Command::Reset => core.reset(),
        Command::SetLimit(limit) => core.set_limit(limit),
        Command::Retarget(limit) => core.retarget(limit),
        Command::Restore { elapsed_ms, limit_ms } => core.restore(elapsed_ms, limit_ms),
        Command::Shutdown => {
            assert(core@ == command_effect(old(core)@, cmd, 0, 0));
            return false;
        },
    }
    proof {
        if cmd is Reset || cmd is SetLimit || cmd is Retarget || cmd is Restore {
            assert(core@ == command_effect(old(core)@, cmd, 0, 0));
        } else if cmd is Pause {
            let m = choose|m: u64| core@ == old(core)@.pause(m);
            assert(core@ == command_effect(old(core)@, cmd, 0, m));
        } else {
            let (w, m) = choose|w: u64, m: u64| core@ == old(core)@.start(w, m);
            assert(core@ == command_effect(old(core)@, cmd, w, m));
        }
    }
    true
}

/// Whether `s` shows `model` at some monotonic reading.
pub open spec fn is_snapshot_of(s: TimerSnapshot, model: TimerModel) -> bool {
    &&& s.state == model.state
    &&& s.limit_ms == model.limit_ms
    &&& exists|m: u64| s.elapsed_ms == model.elapsed(m) && s.remaining_ms == model.remaining(m)
}

/// The snapshot of the engine now: elapsed and remaining both at one
/// monotonic reading.
pub fn take_snapshot<C: Clock>(core: &TimerCore<C>) -> (s: TimerSnapshot)
    ensures
        is_snapshot_of(s, core@),
{
    let mono = core.clock().monotonic_ms();
    let s = TimerSnapshot {
        state: core.state(),
        elapsed_ms: core.elapsed_at(mono),
        remaining_ms: core.remaining_at(mono),
        limit_ms: core.limit_ms(),
    };
    assert(s.elapsed_ms == core@.elapsed(mono) && s.remaining_ms == core@.remaining(mono));
    s
}

/// Whether to publish `snapshot`: always while running (the display ticks),
/// otherwise only when it differs from the last one published.
pub fn should_report(snapshot: &TimerSnapshot, last: &Option<TimerSnapshot>) -> (r: bool)
    ensures
        r == (snapshot.state == TimerState::Running || *last != Some(*snapshot)),
{
    if snapshot.state == TimerState::Running {
        return true;
    }
    match last {
        Some(prev) => *prev != *snapshot,
        None => true,
    }
}

/// The outcome of one turn of the worker loop.
#[derive(Debug, Clone, Copy, PartialEq, Eq, Structural)]
pub enum Tick {
    /// Stop the worker.
    Stop,
    /// Publish this snapshot.
    Report(TimerSnapshot),
    /// Nothing new to publish.
    Quiet,
}

/// One turn of the worker: apply the received command (`None` when the wait
/// timed out), poll the countdown, snapshot, and publish unless nothing
/// changed while idle; `last` remembers what was published.
pub fn run_tick<C: Clock>(
    core: &mut TimerCore<C>,
    cmd: Option<Command>,
    last: &mut Option<TimerSnapshot>,
) -> (t: Tick)
    ensures
        cmd == Some(Command::Shutdown) ==> t == Tick::Stop && *final(last) == *old(last),
        cmd != Some(Command::Shutdown) ==> exists|w: u64, m: u64, p: u64|
            final(core)@ == #[trigger] tick_effect(old(core)@, cmd, w, m, p),
        cmd is None && old(core)@.state == TimerState::Running && old(core)@.limit_ms is Some
            ==> one_more_reading(old(core).mono_readings(), final(core).mono_readings())
            && final(core)@ == old(core)@.poll(final(core).mono_readings().last()),
        cmd is None && !(old(core)@.state == TimerState::Running && old(core)@.limit_ms is Some)
            ==> final(core)@ == old(core)@,
        cmd != Some(Command::Shutdown) ==> match t {
            Tick::Stop => false,
            Tick::Report(s) => (s.state == TimerState::Running || *old(last) != Some(s))
                && *final(last) == Some(s) && is_snapshot_of(s, final(core)@),
            Tick::Quiet => final(core)@.state != TimerState::Running && *final(last) == *old(
                last,
            ) && old(last).is_some() && is_snapshot_of(old(last).unwrap(), final(core)@),
        },
{
    let ghost before = core@;
    if let Some(c) = cmd {
        if !apply_command(core, c) {
            return Tick::Stop;
        }
    }
    let ghost applied = core@;
    let _ = core.poll();
    proof {
        let p = choose|p: u64| core@ == applied.poll(p);
        match cmd {
            Some(c) => {
                let (w, m) = choose|w: u64, m: u64| applied == command_effect(before, c, w, m);
                assert(core@ == tick_effect(before, cmd, w, m, p));
            },
            None => {
                assert(core@ == before.poll(0).poll(p)) by {
                    assert(applied == before);
                }
                assert(core@ == tick_effect(before, cmd, 0, 0, p));
            },
        }
    }
    let snapshot = take_snapshot(core);
    if should_report(&snapshot, last) {
        *last = Some(snapshot);
        Tick::Report(snapshot)
    } else {
        Tick::Quiet
    }
}

} // verus!
