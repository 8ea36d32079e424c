//! Pomodoro orchestration: the cycle state machine plus the on/off switch,
//! and the decisions that turn a finished phase or a settings change into
//! engine commands.  Sending the commands and showing notifications is left
//! to the application.

use crate::pomodoro::{classic_config, Phase, PomodoroConfig, PomodoroMachine, PomodoroModel};
use crate::runtime::{command_effect, Command};
use crate::text::{decimal, push_decimal};
use crate::timer::{TimerModel, TimerState};
use vstd::prelude::*;

verus! {

/// The pomodoro state shown to the user.
#[derive(Debug, Clone, Copy, PartialEq, Eq, Structural)]
pub struct PomodoroStatus {
    pub enabled: bool,
    pub phase: Phase,
    pub completed_focus: u32,
}

/// The cycle and whether pomodoro mode is on.
pub struct PomodoroManager {
    machine: PomodoroMachine,
    enabled: bool,
}

impl PomodoroManager {
    /// The cycle's abstract state.
    pub closed spec fn cycle(&self) -> PomodoroModel {
        self.machine@
    }

    /// Whether pomodoro mode is on.
    pub closed spec fn on(&self) -> bool {
        self.enabled
    }

    /// The status the current state shows.
    pub open spec fn status_of(&self) -> PomodoroStatus {
        PomodoroStatus {
            enabled: self.on(),
            phase: self.cycle().phase,
            completed_focus: self.cycle().completed_focus,
        }
    }

    /// Off, with the classic configuration and a fresh cycle.
    pub fn new() -> (m: Self)
        ensures
            !m.on(),
            m.cycle() == (PomodoroModel {
                config: classic_config(),
                phase: Phase::Focus,
                completed_focus: 0,
            }),
    {
        PomodoroManager { machine: PomodoroMachine::new(PomodoroConfig::default()), enabled: false }
    }

    /// Off, with a configuration loaded from the settings.
    pub fn with_config(config: PomodoroConfig) -> (m: Self)
        ensures
            !m.on(),
            m.cycle() == (PomodoroModel { config, phase: Phase::Focus, completed_focus: 0 }),
    {
        PomodoroManager { machine: PomodoroMachine::new(config), enabled: false }
    }

    pub fn config(&self) -> (c: PomodoroConfig)
        ensures
            c == self.cycle().config,
    {
        self.machine.config()
    }

    /// Duration of `phase` under the current configuration.
    pub fn duration_of(&self, phase: Phase) -> (ms: u64)
        ensures
            ms == self.cycle().duration_of(phase),
    {
        self.machine.duration_of(phase)
    }

    /// Replaces the configuration, keeping phase, count and the switch.
    pub fn apply_config(&mut self, config: PomodoroConfig) -> (s: PomodoroStatus)
        ensures
            final(self).on() == old(self).on(),
            final(self).cycle() == (PomodoroModel { config, ..old(self).cycle() }),
            s == final(self).status_of(),
    {
        self.machine.set_config(config);
        self.status()
    }

    pub fn status(&self) -> (s: PomodoroStatus)
        ensures
            s == self.status_of(),
    {
        PomodoroStatus {
            enabled: self.enabled,
            phase: self.machine.phase(),
            completed_focus: self.machine.completed_focus(),
        }
    }

    /// Turns pomodoro mode on with a fresh cycle (the timer is not started).
    pub fn enable(&mut self) -> (s: PomodoroStatus)
        ensures
            final(self).on(),
            final(self).cycle() == (PomodoroModel {
                config: old(self).cycle().config,
                phase: Phase::Focus,
                completed_focus: 0,
            }),
            s == final(self).status_of(),
    {
        self.machine.reset();
        self.enabled = true;
        self.status()
    }

    /// Turns pomodoro mode off, keeping the cycle as it is.
    pub fn disable(&mut self) -> (s: PomodoroStatus)
        ensures
            !final(self).on(),
            final(self).cycle() == old(self).cycle(),
            s == final(self).status_of(),
    {
        self.enabled = false;
        self.status()
    }

    /// Whether the current phase is recorded: always when the mode is off,
    /// otherwise only during focus.
    pub fn should_record(&self) -> (r: bool)
        ensures
            r == (!self.on() || self.cycle().phase == Phase::Focus),
    {
        !self.enabled || self.machine.phase() == Phase::Focus
    }

    pub fn is_enabled(&self) -> (r: bool)
        ensures
            r == self.on(),
    {
        self.enabled
    }

    /// Duration of the current phase, used to arm the engine.
    pub fn armed_duration(&self) -> (ms: u64)
        ensures
            ms == self.cycle().duration_of(self.cycle().phase),
    {
        self.machine.duration()
    }

    /// Ends the current phase; returns the next phase and its duration.
    pub fn advance(&mut self) -> (r: (Phase, u64))
        requires
            old(self).cycle().can_advance(),
        ensures
            final(self).on() == old(self).on(),
            final(self).cycle() == old(self).cycle().advanced(),
            r == (final(self).cycle().phase, final(self).cycle().duration_of(
                final(self).cycle().phase,
            )),
    {
        let phase = self.machine.advance();
        (phase, self.machine.duration_of(phase))
    }
}

/// The notification title for reaching `phase`.
pub open spec fn notice_title(phase: Phase) -> Seq<char> {
    match phase {
        Phase::ShortBreak => "专注完成"@,
        Phase::LongBreak => "连续专注达成"@,
        Phase::Focus => "休息结束"@,
    }
}

/// The notification body for reaching `phase`, which lasts `duration_ms`.
pub open spec fn notice_body(phase: Phase, duration_ms: u64) -> Seq<char> {
    let minutes = decimal((duration_ms / 60_000) as nat);
    match phase {
        Phase::ShortBreak => "休息 "@ + minutes + " 分钟，站起来走走"@,
        Phase::LongBreak => "来一次 "@ + minutes + " 分钟的长休息"@,
        Phase::Focus => "新的番茄开始了，进入专注"@,
    }
}

/// Title and body of the notification shown when a phase ends and `phase`
/// begins; durations are shown in whole minutes.
pub fn pomodoro_notice(phase: Phase, duration_ms: u64) -> (r: (String, String))
    ensures
        r.0@ == notice_title(phase),
        r.1@ == notice_body(phase, duration_ms),
{
    let minutes = duration_ms / 60_000;
    match phase {
        Phase::ShortBreak => {
            let mut body = String::from_str("休息 ");
            push_decimal(&mut body, minutes);
            body.append(" 分钟，站起来走走");
            (String::from_str("专注完成"), body)
        },
        Phase::LongBreak => {
            let mut body = String::from_str("来一次 ");
            push_decimal(&mut body, minutes);
            body.append(" 分钟的长休息");
            (String::from_str("连续专注达成"), body)
        },
        Phase::Focus => (String::from_str("休息结束"), String::from_str("新的番茄开始了，进入专注")),
    }
}

/// What happens when the running phase ends in pomodoro mode.
#[derive(Debug, Clone, Copy, PartialEq, Eq, Structural)]
pub struct PhaseChange {
    /// The phase that begins.
    pub phase: Phase,
    /// Its duration.
    pub duration_ms: u64,
    /// Whether it is recorded (only focus is).
    pub record: bool,
}

/// The engine commands that run the next phase: back to idle, the new
/// limit, start.
pub open spec fn rearm(duration_ms: u64) -> Seq<Command> {
    seq![Command::Reset, Command::SetLimit(Some(duration_ms)), Command::Start]
}

/// The engine after `cmds` applied in order (clock readings `w`, `m`).
pub open spec fn after_commands(model: TimerModel, cmds: Seq<Command>, w: u64, m: u64) -> TimerModel
    decreases cmds.len(),
{
    if cmds.len() == 0 {
        model
    } else {
        command_effect(after_commands(model, cmds.drop_last(), w, m), cmds.last(), w, m)
    }
}

/// Arming the next phase starts it afresh, whatever the engine was doing
/// (a countdown that just finished, one still running, paused or idle): the
/// engine runs from the arming reading `s`, with nothing accumulated, and
/// its limit is the new phase's duration, so the phase lasts exactly
/// `duration_ms`.
pub proof fn law_rearm_starts_the_phase_afresh(model: TimerModel, duration_ms: u64, w: u64, s: u64, t: u64)
    requires
        s <= t,
    ensures
        ({
            let e = after_commands(model, rearm(duration_ms), w, s);
            &&& e.state == TimerState::Running
            &&& e.limit_ms == Some(duration_ms)
            &&& e.accumulated_ms == 0
            &&& e.elapsed(s) == 0
            &&& e.elapsed(t) == t - s
            &&& e.remaining(s) == Some(duration_ms)
        }),
{
    reveal_with_fuel(after_commands, 4);
    let c = rearm(duration_ms);
    assert(c.drop_last().drop_last().drop_last() =~= Seq::<Command>::empty());
}

impl PhaseChange {
    /// The commands that start the new phase.
    pub fn commands(&self) -> (c: Vec<Command>)
        ensures
            c@ == rearm(self.duration_ms),
    {
        let mut c = Vec::new();
        c.push(Command::Reset);
        c.push(Command::SetLimit(Some(self.duration_ms)));
        c.push(Command::Start);
        c
    }
}

/// On a countdown reaching its end: in pomodoro mode the cycle advances and
/// the next phase is planned; with the mode off nothing happens.
pub fn on_countdown_finished(manager: &mut PomodoroManager) -> (r: Option<PhaseChange>)
    requires
        old(manager).cycle().can_advance(),
    ensures
        !old(manager).on() ==> r is None && final(manager).cycle() == old(manager).cycle()
            && !final(manager).on(),
        old(manager).on() ==> final(manager).on() && final(manager).cycle() == old(
            manager,
        ).cycle().advanced() && r == Some(
            PhaseChange {
                phase: final(manager).cycle().phase,
                duration_ms: final(manager).cycle().duration_of(final(manager).cycle().phase),
                record: final(manager).cycle().phase == Phase::Focus,
            },
        ),
{
    if !manager.is_enabled() {
        return None;
    }
    let (phase, duration_ms) = manager.advance();
    Some(PhaseChange { phase, duration_ms, record: phase == Phase::Focus })
}

/// Commands after the mode is switched: turning it on arms the engine with
/// the first focus phase (idle, limit set, not started); turning it off sends nothing.
pub fn commands_after_toggle(enabled: bool, armed_ms: u64) -> (c: Vec<Command>)
    ensures
        enabled ==> c@ == seq![Command::Reset, Command::SetLimit(Some(armed_ms))],
        !enabled ==> c@.len() == 0,
{
    let mut c = Vec::new();
    if enabled {
        c.push(Command::Reset);
        c.push(Command::SetLimit(Some(armed_ms)));
    }
    c
}

/// Commands after the configuration changes, by the engine's last known
/// state: idle re-arms with the new focus duration; running or paused
/// retargets the current phase to its new duration (elapsed time is kept and
/// the remaining time follows the new limit); finished, or no
/// snapshot yet, or the mode off, sends nothing.
pub fn commands_after_config_change(
    status: PomodoroStatus,
    timer_state: Option<TimerState>,
    focus_ms: u64,
    phase_limit_ms: u64,
) -> (c: Vec<Command>)
    ensures
        !status.enabled ==> c@.len() == 0,
        status.enabled ==> match timer_state {
            Some(TimerState::Idle) => c@ == seq![Command::Reset, Command::SetLimit(Some(focus_ms))],
            Some(TimerState::Running) | Some(TimerState::Paused) => c@ == seq![
                Command::Retarget(Some(phase_limit_ms)),
            ],
            _ => c@.len() == 0,
        },
{
    let mut c = Vec::new();
    if status.enabled {
        match timer_state {
            Some(TimerState::Idle) => {
                c.push(Command::Reset);
                c.push(Command::SetLimit(Some(focus_ms)));
            },
            Some(TimerState::Running) | Some(TimerState::Paused) => {
                c.push(Command::Retarget(Some(phase_limit_ms)));
            },
            _ => {},
        }
    }
    c
}

/// Pomodoro mode records focus and skips breaks: after any phase change the
/// recording switch is on exactly when the new phase is focus.
pub proof fn law_only_focus_is_recorded(m: PomodoroModel)
    requires
        m.can_advance(),
    ensures
        (m.advanced().phase == Phase::Focus) <==> (m.phase != Phase::Focus),
{
}

} // verus!
