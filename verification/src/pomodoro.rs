//! The pomodoro cycle as a pure state machine.
//!
//! Focus, then a short break, then focus again; every `focus_before_long`-th
//! completed focus earns a long break instead.  The machine never touches a
//! clock: `advance` only says which phase comes next and how long it lasts.

use vstd::prelude::*;

verus! {

/// One phase of the cycle.
#[derive(Debug, Clone, Copy, PartialEq, Eq, Structural)]
pub enum Phase {
    Focus,
    ShortBreak,
    LongBreak,
}

/// The stable text name of a phase.
pub open spec fn phase_name(phase: Phase) -> Seq<char> {
    match phase {
        Phase::Focus => "focus"@,
        Phase::ShortBreak => "short_break"@,
        Phase::LongBreak => "long_break"@,
    }
}

impl Phase {
    pub fn as_str(self) -> (s: &'static str)
        ensures
            s@ == phase_name(self),
    {
        match self {
            Phase::Focus => "focus",
            Phase::ShortBreak => "short_break",
            Phase::LongBreak => "long_break",
        }
    }
}

/// Cycle parameters, durations in milliseconds.
#[derive(Debug, Clone, Copy, PartialEq, Eq, Structural)]
pub struct PomodoroConfig {
    pub focus_ms: u64,
    pub short_break_ms: u64,
    pub long_break_ms: u64,
    /// How many completed focus phases earn a long break.
    pub focus_before_long: u32,
}

/// Shortest accepted phase: one minute.
pub const MIN_PHASE_MS: u64 = 60_000;

/// Longest accepted phase: two hours.
pub const MAX_PHASE_MS: u64 = 7_200_000;

/// Whether a phase duration lies in the accepted one-minute-to-two-hours range.
pub open spec fn phase_ms_ok(ms: u64) -> bool {
    MIN_PHASE_MS <= ms <= MAX_PHASE_MS
}

/// Which field, checked in declaration order, is first out of range.
pub open spec fn config_violation(c: PomodoroConfig) -> Option<Seq<char>> {
    if !phase_ms_ok(c.focus_ms) {
        Some("focus_ms"@)
    } else if !phase_ms_ok(c.short_break_ms) {
        Some("short_break_ms"@)
    } else if !phase_ms_ok(c.long_break_ms) {
        Some("long_break_ms"@)
    } else if !(2 <= c.focus_before_long <= 8) {
        Some("focus_before_long"@)
    } else {
        None
    }
}

impl PomodoroConfig {
    /// Accepts durations of 1 to 120 minutes and 2 to 8 rounds before a long
    /// break; otherwise names the first offending field.
    pub fn validate(&self) -> (r: Result<(), &'static str>)
        ensures
            r is Ok <==> config_violation(*self) is None,
            r matches Err(field) ==> config_violation(*self) == Some(field@),
    {
        if self.focus_ms < MIN_PHASE_MS || self.focus_ms > MAX_PHASE_MS {
            return Err("focus_ms");
        }
        if self.short_break_ms < MIN_PHASE_MS || self.short_break_ms > MAX_PHASE_MS {
            return Err("short_break_ms");
        }
        if self.long_break_ms < MIN_PHASE_MS || self.long_break_ms > MAX_PHASE_MS {
            return Err("long_break_ms");
        }
        if !(2 <= self.focus_before_long && self.focus_before_long <= 8) {
            return Err("focus_before_long");
        }
        Ok(())
    }
}

/// The classic pomodoro: 25 / 5 / 15 minutes, a long break every 4.
pub open spec fn classic_config() -> PomodoroConfig {
    PomodoroConfig {
        focus_ms: 1_500_000,
        short_break_ms: 300_000,
        long_break_ms: 900_000,
        focus_before_long: 4,
    }
}

impl Default for PomodoroConfig {
    fn default() -> (c: Self)
        ensures
            c == classic_config(),
    {
        PomodoroConfig {
            focus_ms: 1_500_000,
            short_break_ms: 300_000,
            long_break_ms: 900_000,
            focus_before_long: 4,
        }
    }
}

/// `u32::is_multiple_of`: `c % n == 0`, where only zero is a multiple of zero.
pub open spec fn multiple_of(c: u32, n: u32) -> bool {
    if n == 0 { c == 0 } else { c % n == 0 }
}

/// The abstract state of the machine.
pub struct PomodoroModel {
    pub config: PomodoroConfig,
    pub phase: Phase,
    pub completed_focus: u32,
}

impl PomodoroModel {
    /// Duration of `phase` under this configuration.
    pub open spec fn duration_of(self, phase: Phase) -> u64 {
        match phase {
            Phase::Focus => self.config.focus_ms,
            Phase::ShortBreak => self.config.short_break_ms,
            Phase::LongBreak => self.config.long_break_ms,
        }
    }

    /// Whether `advance` can count one more completed focus without overflow.
    pub open spec fn can_advance(self) -> bool {
        self.phase == Phase::Focus ==> self.completed_focus < u32::MAX
    }

    /// The state after the current phase ends.
    pub open spec fn advanced(self) -> PomodoroModel {
        match self.phase {
            Phase::Focus => {
                let done = (self.completed_focus + 1) as u32;
                PomodoroModel {
                    phase: if multiple_of(done, self.config.focus_before_long) {
                        Phase::LongBreak
                    } else {
                        Phase::ShortBreak
                    },
                    completed_focus: done,
                    ..self
                }
            },
            _ => PomodoroModel { phase: Phase::Focus, ..self },
        }
    }

    /// The state after `k` phases end in a row.
    pub open spec fn advanced_times(self, k: nat) -> PomodoroModel
        decreases k,
    {
        if k == 0 {
            self
        } else {
            self.advanced_times((k - 1) as nat).advanced()
        }
    }
}

/// The cycle state machine.
pub struct PomodoroMachine {
    config: PomodoroConfig,
    phase: Phase,
    completed_focus: u32,
}

impl View for PomodoroMachine {
    type V = PomodoroModel;

    closed spec fn view(&self) -> PomodoroModel {
        PomodoroModel {
            config: self.config,
            phase: self.phase,
            completed_focus: self.completed_focus,
        }
    }
}

impl PomodoroMachine {
    /// A fresh cycle: first phase is focus, nothing completed.
    pub fn new(config: PomodoroConfig) -> (m: Self)
        ensures
            m@ == (PomodoroModel { config, phase: Phase::Focus, completed_focus: 0 }),
    {
        PomodoroMachine { config, phase: Phase::Focus, completed_focus: 0 }
    }

    pub fn config(&self) -> (c: PomodoroConfig)
        ensures
            c == self@.config,
    {
        self.config
    }

    /// Replaces the parameters; phase and count are kept, and later durations
    /// read the new values.
    pub fn set_config(&mut self, config: PomodoroConfig)
        ensures
            final(self)@ == (PomodoroModel { config, ..old(self)@ }),
    {
        self.config = config;
    }

    pub fn phase(&self) -> (p: Phase)
        ensures
            p == self@.phase,
    {
        self.phase
    }

    pub fn completed_focus(&self) -> (n: u32)
        ensures
            n == self@.completed_focus,
    {
        self.completed_focus
    }

    /// Duration of `phase` under the current configuration.
    pub fn duration_of(&self, phase: Phase) -> (ms: u64)
        ensures
            ms == self@.duration_of(phase),
    {
        match phase {
            Phase::Focus => self.config.focus_ms,
            Phase::ShortBreak => self.config.short_break_ms,
            Phase::LongBreak => self.config.long_break_ms,
        }
    }

    /// Duration of the current phase.
    pub fn duration(&self) -> (ms: u64)
        ensures
            ms == self@.duration_of(self@.phase),
    {
        self.duration_of(self.phase)
    }

    /// Ends the current phase and returns the next one.
    pub fn advance(&mut self) -> (next: Phase)
        requires
            old(self)@.can_advance(),
        ensures
            final(self)@ == old(self)@.advanced(),
            next == final(self)@.phase,
    {
        self.phase = match self.phase {
            Phase::Focus => {
                self.completed_focus = self.completed_focus + 1;
                let n = self.config.focus_before_long;
                let long = if n == 0 {
                    self.completed_focus == 0
                } else {
                    self.completed_focus % n == 0
                };
                if long {
                    Phase::LongBreak
                } else {
                    Phase::ShortBreak
                }
            },
            Phase::ShortBreak | Phase::LongBreak => Phase::Focus,
        };
        self.phase
    }

    /// Back to a fresh cycle with the same configuration.
    pub fn reset(&mut self)
        ensures
            final(self)@ == (PomodoroModel {
                config: old(self)@.config,
                phase: Phase::Focus,
                completed_focus: 0,
            }),
    {
        self.phase = Phase::Focus;
        self.completed_focus = 0;
    }
}

/// Every break is followed by focus, and the count of completed focus phases
/// only grows when a focus phase ends.
pub proof fn law_break_returns_to_focus(m: PomodoroModel)
    requires
        m.phase != Phase::Focus,
    ensures
        m.advanced().phase == Phase::Focus,
        m.advanced().completed_focus == m.completed_focus,
        m.advanced().config == m.config,
{
}

/// Ending a focus phase counts it, and earns a long break exactly when the new
/// count is a multiple of `focus_before_long`.
pub proof fn law_focus_earns_break(m: PomodoroModel)
    requires
        m.phase == Phase::Focus,
        m.completed_focus < u32::MAX,
        m.config.focus_before_long > 0,
    ensures
        m.advanced().completed_focus == m.completed_focus + 1,
        m.advanced().phase == Phase::LongBreak <==> (m.completed_focus + 1)
            % (m.config.focus_before_long as int) == 0,
        m.advanced().phase != Phase::Focus,
{
}

proof fn lemma_round_step(m: PomodoroModel, j: nat)
    requires
        m.phase == Phase::Focus,
        m.config.focus_before_long >= 1,
        (m.completed_focus as int) % (m.config.focus_before_long as int) == 0,
        j < m.config.focus_before_long,
        m.completed_focus + m.config.focus_before_long <= u32::MAX,
        m.advanced_times(2 * j) == (PomodoroModel {
            phase: Phase::Focus,
            completed_focus: (m.completed_focus + j) as u32,
            ..m
        }),
    ensures
        m.advanced_times(2 * j + 1) == (PomodoroModel {
            phase: if j + 1 == m.config.focus_before_long {
                Phase::LongBreak
            } else {
                Phase::ShortBreak
            },
            completed_focus: (m.completed_focus + j + 1) as u32,
            ..m
        }),
        m.advanced_times(2 * j + 2) == (PomodoroModel {
            phase: Phase::Focus,
            completed_focus: (m.completed_focus + j + 1) as u32,
            ..m
        }),
{
    let n = m.config.focus_before_long as int;
    let c = m.completed_focus as int;
    assert(m.advanced_times(2 * j + 1) == m.advanced_times(2 * j).advanced());
    assert(m.advanced_times(2 * j + 2) == m.advanced_times(2 * j + 1).advanced());
    let q = c / n;
    vstd::arithmetic::div_mod::lemma_fundamental_div_mod(c, n);
    assert(c == n * q);
    vstd::arithmetic::div_mod::lemma_mod_multiples_vanish(q, (j + 1) as int, n);
    assert(c + j + 1 == n * q + (j + 1));
    if j + 1 == n {
        vstd::arithmetic::div_mod::lemma_mod_self_0(n);
    } else {
        vstd::arithmetic::div_mod::lemma_small_mod((j + 1) as nat, n as nat);
    }
}

proof fn lemma_round_prefix(m: PomodoroModel, j: nat)
    requires
        m.phase == Phase::Focus,
        m.config.focus_before_long >= 1,
        (m.completed_focus as int) % (m.config.focus_before_long as int) == 0,
        j <= m.config.focus_before_long,
        m.completed_focus + m.config.focus_before_long <= u32::MAX,
    ensures
        m.advanced_times(2 * j) == (PomodoroModel {
            phase: Phase::Focus,
            completed_focus: (m.completed_focus + j) as u32,
            ..m
        }),
    decreases j,
{
    if j == 0 {
        assert(m.advanced_times(0) == m);
    } else {
        lemma_round_prefix(m, (j - 1) as nat);
        lemma_round_step(m, (j - 1) as nat);
        assert(2 * (j - 1) + 2 == 2 * j);
    }
}

/// The cycle repeats without end: starting a round in focus with a count that
/// is a multiple of `n = focus_before_long`, the next `2n` phase ends go focus,
/// short break, focus, ..., and the `n`-th focus earns the long break; after
/// the round the machine is back in focus with `n` more completed.
pub proof fn law_cycle_repeats(m: PomodoroModel, j: nat)
    requires
        m.phase == Phase::Focus,
        m.config.focus_before_long >= 1,
        (m.completed_focus as int) % (m.config.focus_before_long as int) == 0,
        m.completed_focus + m.config.focus_before_long <= u32::MAX,
        j < m.config.focus_before_long,
    ensures
        m.advanced_times(2 * j).phase == Phase::Focus,
        m.advanced_times(2 * j + 1).phase == (if j + 1 == m.config.focus_before_long {
            Phase::LongBreak
        } else {
            Phase::ShortBreak
        }),
        m.advanced_times(2 * j + 1).completed_focus == m.completed_focus + j + 1,
        m.advanced_times(2 * (m.config.focus_before_long as nat)) == (PomodoroModel {
            phase: Phase::Focus,
            completed_focus: (m.completed_focus + m.config.focus_before_long) as u32,
            ..m
        }),
{
    lemma_round_prefix(m, j);
    lemma_round_step(m, j);
    lemma_round_prefix(m, m.config.focus_before_long as nat);
}

} // verus!
