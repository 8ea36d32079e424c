use pristimer::manager::{commands_after_config_change, PomodoroStatus};
use pristimer::pomodoro::{Phase, PomodoroConfig, PomodoroMachine};
use pristimer::runtime::Command;
use pristimer::timer::TimerState;

const MIN: u64 = 60_000;

fn machine() -> PomodoroMachine {
    PomodoroMachine::new(PomodoroConfig {
        focus_ms: 25 * MIN,
        short_break_ms: 5 * MIN,
        long_break_ms: 15 * MIN,
        focus_before_long: 2,
    })
}

#[test]
fn default_config_is_the_classic_pomodoro() {
    let config = PomodoroConfig::default();
    assert_eq!(config.focus_ms, 25 * MIN);
    assert_eq!(config.short_break_ms, 5 * MIN);
    assert_eq!(config.long_break_ms, 15 * MIN);
    assert_eq!(config.focus_before_long, 4);
}

#[test]
fn starts_in_focus() {
    let m = machine();
    assert_eq!(m.phase(), Phase::Focus);
    assert_eq!(m.completed_focus(), 0);
    assert_eq!(m.duration(), 25 * MIN);
}

#[test]
fn cycle_goes_focus_short_focus_long() {
    let mut m = machine();
    assert_eq!(m.advance(), Phase::ShortBreak);
    assert_eq!(m.duration(), 5 * MIN);
    assert_eq!(m.completed_focus(), 1);
    assert_eq!(m.advance(), Phase::Focus);
    assert_eq!(m.advance(), Phase::LongBreak);
    assert_eq!(m.duration(), 15 * MIN);
    assert_eq!(m.completed_focus(), 2);
    assert_eq!(m.advance(), Phase::Focus);
    assert_eq!(m.advance(), Phase::ShortBreak);
    assert_eq!(m.completed_focus(), 3);
}

#[test]
fn full_cycle_repeats_indefinitely() {
    let mut m = machine();
    for round in 0..3 {
        assert_eq!(m.advance(), Phase::ShortBreak, "round {round}");
        assert_eq!(m.advance(), Phase::Focus);
        assert_eq!(m.advance(), Phase::LongBreak, "round {round}");
        assert_eq!(m.advance(), Phase::Focus);
    }
    assert_eq!(m.completed_focus(), 6);
}

#[test]
fn reset_returns_to_a_fresh_cycle() {
    let mut m = machine();
    m.advance();
    m.advance();
    m.reset();
    assert_eq!(m.phase(), Phase::Focus);
    assert_eq!(m.completed_focus(), 0);
    assert_eq!(m.duration(), 25 * MIN);
}

#[test]
fn validate_accepts_the_default_and_rejects_outliers() {
    assert_eq!(PomodoroConfig::default().validate(), Ok(()));

    let too_short = PomodoroConfig {
        focus_ms: 30_000,
        ..PomodoroConfig::default()
    };
    assert_eq!(too_short.validate(), Err("focus_ms"));

    let bad_rounds = PomodoroConfig {
        focus_before_long: 9,
        ..PomodoroConfig::default()
    };
    assert_eq!(bad_rounds.validate(), Err("focus_before_long"));
}

#[test]
fn set_config_keeps_phase_and_applies_on_next_advance() {
    let mut m = machine();
    m.advance();
    assert_eq!(m.phase(), Phase::ShortBreak);

    let custom = PomodoroConfig {
        focus_ms: 40 * MIN,
        short_break_ms: 8 * MIN,
        long_break_ms: 20 * MIN,
        focus_before_long: 2,
    };
    m.set_config(custom);

    assert_eq!(m.phase(), Phase::ShortBreak);
    assert_eq!(m.completed_focus(), 1);
    assert_eq!(m.duration(), 8 * MIN);

    m.advance();
    assert_eq!(m.phase(), Phase::Focus);
    assert_eq!(m.duration(), 40 * MIN);
}

#[test]
fn validate_names_each_field_at_its_bounds() {
    let base = PomodoroConfig::default();
    assert_eq!(PomodoroConfig { focus_ms: 60_000, ..base }.validate(), Ok(()));
    assert_eq!(PomodoroConfig { focus_ms: 7_200_000, ..base }.validate(), Ok(()));
    assert_eq!(PomodoroConfig { focus_ms: 7_200_001, ..base }.validate(), Err("focus_ms"));
    assert_eq!(PomodoroConfig { short_break_ms: 59_999, ..base }.validate(), Err("short_break_ms"));
    assert_eq!(PomodoroConfig { long_break_ms: 0, ..base }.validate(), Err("long_break_ms"));
    assert_eq!(PomodoroConfig { focus_before_long: 1, ..base }.validate(), Err("focus_before_long"));
    assert_eq!(PomodoroConfig { focus_before_long: 2, ..base }.validate(), Ok(()));
    assert_eq!(PomodoroConfig { focus_before_long: 8, ..base }.validate(), Ok(()));
    assert_eq!(
        PomodoroConfig { focus_ms: 1, short_break_ms: 1, ..base }.validate(),
        Err("focus_ms")
    );
}

#[test]
fn phase_names_are_stable() {
    assert_eq!(Phase::Focus.as_str(), "focus");
    assert_eq!(Phase::ShortBreak.as_str(), "short_break");
    assert_eq!(Phase::LongBreak.as_str(), "long_break");
}

#[test]
fn zero_rounds_never_earn_a_long_break() {
    let mut m = PomodoroMachine::new(PomodoroConfig { focus_before_long: 0, ..PomodoroConfig::default() });
    for _ in 0..5 {
        assert_eq!(m.advance(), Phase::ShortBreak);
        assert_eq!(m.advance(), Phase::Focus);
    }
}

#[test]
fn a_config_change_retargets_the_phase_in_progress() {
    let on = PomodoroStatus { enabled: true, phase: Phase::Focus, completed_focus: 0 };
    assert_eq!(
        commands_after_config_change(on, Some(TimerState::Running), 30 * MIN, 30 * MIN),
        vec![Command::Retarget(Some(30 * MIN))]
    );
    assert_eq!(
        commands_after_config_change(on, Some(TimerState::Paused), 30 * MIN, 30 * MIN),
        vec![Command::Retarget(Some(30 * MIN))]
    );
    assert_eq!(
        commands_after_config_change(on, Some(TimerState::Idle), 30 * MIN, 30 * MIN),
        vec![Command::Reset, Command::SetLimit(Some(30 * MIN))]
    );
    assert!(commands_after_config_change(on, Some(TimerState::Finished), 30 * MIN, 30 * MIN).is_empty());
    let off = PomodoroStatus { enabled: false, ..on };
    assert!(commands_after_config_change(off, Some(TimerState::Running), 30 * MIN, 30 * MIN).is_empty());
}
