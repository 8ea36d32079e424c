use pristimer::clock::FakeClock;
use pristimer::recorder::Recorder;
use pristimer::runtime::{run_tick, Command, Tick};
use pristimer::session::SessionKind;
use pristimer::store::Store;
use pristimer::timer::{TimerCore, TimerState};

const T0: u64 = 1_700_000_000_000;
const HOUR: u64 = 60 * 60 * 1_000;

#[test]
fn recovery_reports_automatic_settlement_once() {
    let mut store = Store::open_in_memory().unwrap();
    store.begin_session(SessionKind::Stopwatch, None, T0, None).unwrap();
    let mut recorder = Recorder::new(store, FakeClock::new(T0 + 13 * HOUR));
    assert!(recorder.recover().is_none());
    assert_eq!(recorder.take_notes(), vec!["启动时自动结算了 1 条残留会话".to_string()]);
    assert!(recorder.take_notes().is_empty());
}

#[test]
fn a_tick_applies_the_command_then_reports() {
    let mut core = TimerCore::new(FakeClock::new(T0), Some(60_000));
    let mut last = None;
    match run_tick(&mut core, Some(Command::Start), &mut last) {
        Tick::Report(s) => {
            assert_eq!(s.state, TimerState::Running);
            assert_eq!(s.elapsed_ms, 0);
            assert_eq!(s.remaining_ms, Some(60_000));
            assert_eq!(s.limit_ms, Some(60_000));
        }
        other => panic!("expected a report, got {other:?}"),
    }
    core.clock().advance(20_000);
    match run_tick(&mut core, Some(Command::Retarget(Some(30_000))), &mut last) {
        Tick::Report(s) => {
            assert_eq!(s.elapsed_ms, 20_000);
            assert_eq!(s.remaining_ms, Some(10_000));
        }
        other => panic!("expected a report, got {other:?}"),
    }
    core.clock().advance(10_000);
    match run_tick(&mut core, None, &mut last) {
        Tick::Report(s) => {
            assert_eq!(s.state, TimerState::Finished);
            assert_eq!(s.elapsed_ms, 30_000);
            assert_eq!(s.remaining_ms, Some(0));
        }
        other => panic!("expected a report, got {other:?}"),
    }
    assert_eq!(run_tick(&mut core, None, &mut last), Tick::Quiet);
    assert_eq!(run_tick(&mut core, Some(Command::Shutdown), &mut last), Tick::Stop);
}
