//! The session recorder: turns the engine's snapshots into session-log writes.
//!
//! The engine only says "running, 3 s so far"; whether that opens a session,
//! resumes one, pauses or settles it is decided here.  Database failures are
//! not fatal: the recorder runs on the timer thread and must keep going, so a
//! failed write leaves the open-session bookkeeping as described below.

use crate::clock::Clock;
use crate::runtime::TimerSnapshot;
use crate::session::{Recovered, Recovery, SessionKind};
use crate::store::{
    finish_write_spec, is_begin_write, opt_as_i64, opt_text, recovery_answered, Store, StoreError,
    StoreWrite,
};
use crate::text::push_decimal;
use crate::timer::TimerState;
use vstd::prelude::*;

verus! {

/// The session that is written to the log but not settled yet.
#[derive(Debug, Clone, Copy, PartialEq, Eq, Structural)]
pub struct OpenSession {
    pub id: i64,
    /// The state seen in the previous snapshot.
    pub last_state: TimerState,
    /// The elapsed time seen in the previous snapshot: a reset reports zero,
    /// so settling after a reset uses this value.
    pub last_elapsed_ms: u64,
}

/// The open session after `snapshot`, given whether recording is on and, when
/// a new session had to be begun, the id the log returned (`None` if the
/// write failed).
pub open spec fn next_open(
    open: Option<OpenSession>,
    recording: bool,
    snapshot: TimerSnapshot,
    begun: Option<i64>,
) -> Option<OpenSession> {
    match snapshot.state {
        TimerState::Running => match open {
            None => if !recording {
                None
            } else {
                match begun {
                    Some(id) => Some(
                        OpenSession {
                            id,
                            last_state: TimerState::Running,
                            last_elapsed_ms: snapshot.elapsed_ms,
                        },
                    ),
                    None => None,
                }
            },
            Some(o) => Some(
                OpenSession {
                    id: o.id,
                    last_state: TimerState::Running,
                    last_elapsed_ms: snapshot.elapsed_ms,
                },
            ),
        },
        TimerState::Paused => match open {
            None => None,
            Some(o) => Some(
                OpenSession {
                    id: o.id,
                    last_state: TimerState::Paused,
                    last_elapsed_ms: snapshot.elapsed_ms,
                },
            ),
        },
        _ => None,
    }
}

/// How a snapshot touches the log.
#[derive(Debug, Clone, Copy, PartialEq, Eq, Structural)]
pub enum LogWrite {
    /// Nothing to write.
    Nothing,
    /// Begin a new session of this kind with this limit.
    Begin { kind: SessionKind, limit_ms: Option<u64> },
    /// Resume session `id` with `elapsed_ms` accumulated.
    Resume { id: i64, elapsed_ms: u64 },
    /// Pause session `id` with `elapsed_ms` accumulated.
    Pause { id: i64, elapsed_ms: u64 },
    /// Settle session `id`.
    Finish { id: i64, elapsed_ms: u64, completed: bool },
}

/// Whether the session writes `after` are `before` followed by exactly the
/// write that `w` asks for, made at wall time `wall`, a new session being
/// tagged `tag`.
pub open spec fn wrote(
    before: Seq<StoreWrite>,
    after: Seq<StoreWrite>,
    w: LogWrite,
    tag: Option<Seq<char>>,
    wall: u64,
) -> bool {
    match w {
        LogWrite::Nothing => after == before,
        LogWrite::Begin { kind, limit_ms } => after.len() == before.len() + 1 && after.drop_last()
            == before && is_begin_write(after.last(), kind, tag, wall as i64, opt_as_i64(limit_ms)),
        LogWrite::Resume { id, elapsed_ms } => after == before.push(
            StoreWrite::Resume { id, anchor_at: wall as i64, elapsed_ms: elapsed_ms as i64 },
        ),
        LogWrite::Pause { id, elapsed_ms } => after == before.push(
            StoreWrite::Pause { id, elapsed_ms: elapsed_ms as i64, anchor_at: wall as i64 },
        ),
        LogWrite::Finish { id, elapsed_ms, completed } => after == before.push(
            finish_write_spec(id, wall, elapsed_ms, completed),
        ),
    }
}

/// The write a snapshot causes.  A running snapshot begins a session (only
/// while recording), resumes a paused one, or just refreshes; a paused one
/// pauses a running session; a finished one settles as completed with the
/// reported time; an idle one (a reset) settles as not completed with the
/// time seen before the reset.
pub open spec fn log_write(
    open: Option<OpenSession>,
    recording: bool,
    snapshot: TimerSnapshot,
) -> LogWrite {
    match snapshot.state {
        TimerState::Running => match open {
            None => if recording {
                LogWrite::Begin {
                    kind: if snapshot.limit_ms is Some {
                        SessionKind::Countdown
                    } else {
                        SessionKind::Stopwatch
                    },
                    limit_ms: snapshot.limit_ms,
                }
            } else {
                LogWrite::Nothing
            },
            Some(o) => if o.last_state == TimerState::Running {
                LogWrite::Nothing
            } else {
                LogWrite::Resume { id: o.id, elapsed_ms: snapshot.elapsed_ms }
            },
        },
        TimerState::Paused => match open {
            Some(o) => if o.last_state == TimerState::Running {
                LogWrite::Pause { id: o.id, elapsed_ms: snapshot.elapsed_ms }
            } else {
                LogWrite::Nothing
            },
            None => LogWrite::Nothing,
        },
        TimerState::Finished => match open {
            Some(o) => LogWrite::Finish { id: o.id, elapsed_ms: snapshot.elapsed_ms, completed: true },
            None => LogWrite::Nothing,
        },
        TimerState::Idle => match open {
            Some(o) => LogWrite::Finish { id: o.id, elapsed_ms: o.last_elapsed_ms, completed: false },
            None => LogWrite::Nothing,
        },
    }
}

/// Decides the write a snapshot causes.
pub fn plan_log_write(open: Option<OpenSession>, recording: bool, snapshot: TimerSnapshot) -> (w:
    LogWrite)
    ensures
        w == log_write(open, recording, snapshot),
{
    match snapshot.state {
        TimerState::Running => match open {
            None => if recording {
                let kind = if snapshot.limit_ms.is_some() {
                    SessionKind::Countdown
                } else {
                    SessionKind::Stopwatch
                };
                LogWrite::Begin { kind, limit_ms: snapshot.limit_ms }
            } else {
                LogWrite::Nothing
            },
            Some(o) => if o.last_state == TimerState::Running {
                LogWrite::Nothing
            } else {
                LogWrite::Resume { id: o.id, elapsed_ms: snapshot.elapsed_ms }
            },
        },
        TimerState::Paused => match open {
            Some(o) => if o.last_state == TimerState::Running {
                LogWrite::Pause { id: o.id, elapsed_ms: snapshot.elapsed_ms }
            } else {
                LogWrite::Nothing
            },
            None => LogWrite::Nothing,
        },
        TimerState::Finished => match open {
            Some(o) => LogWrite::Finish { id: o.id, elapsed_ms: snapshot.elapsed_ms, completed: true },
            None => LogWrite::Nothing,
        },
        TimerState::Idle => match open {
            Some(o) => LogWrite::Finish {
                id: o.id,
                elapsed_ms: o.last_elapsed_ms,
                completed: false,
            },
            None => LogWrite::Nothing,
        },
    }
}

/// The session recorder.
pub struct Recorder<C: Clock> {
    store: Store,
    clock: C,
    open: Option<OpenSession>,
    recovered: Option<Recovered>,
    recording: bool,
    tag: Option<String>,
    /// Log lines about failed writes and automatic settlement, not yet collected.
    notes: Vec<String>,
}

impl<C: Clock> Recorder<C> {
    /// The unsettled session being tracked.
    pub closed spec fn open_session(&self) -> Option<OpenSession> {
        self.open
    }

    /// The session log this recorder writes to.
    pub closed spec fn store_of(&self) -> Store {
        self.store
    }

    /// Whether new sessions are opened.
    pub closed spec fn recording_on(&self) -> bool {
        self.recording
    }

    /// The tag given to the next new session.
    pub closed spec fn next_tag(&self) -> Option<String> {
        self.tag
    }

    /// The session recovered at start-up.
    pub closed spec fn recovered_session(&self) -> Option<Recovered> {
        self.recovered
    }

    /// A recorder on `store` reading wall time from `clock`: recording on,
    /// no tag, nothing open.
    pub fn new(store: Store, clock: C) -> (r: Self)
        ensures
            r.open_session() is None,
            r.recording_on(),
            r.next_tag() is None,
            r.recovered_session() is None,
            r.store_of() == store,
            r.notes() == Seq::<String>::empty(),
    {
        Recorder { store, clock, open: None, recovered: None, recording: true, tag: None, notes: Vec::new() }
    }

    /// Turns recording of new sessions on or off (breaks are not recorded).
    pub fn set_recording(&mut self, enabled: bool)
        ensures
            final(self).recording_on() == enabled,
            final(self).open_session() == old(self).open_session(),
            final(self).next_tag() == old(self).next_tag(),
            final(self).recovered_session() == old(self).recovered_session(),
    {
        self.recording = enabled;
    }

    /// Sets the tag of the next new session; a session already written keeps its tag.
    pub fn set_tag(&mut self, tag: Option<String>)
        ensures
            final(self).next_tag() == tag,
            final(self).recording_on() == old(self).recording_on(),
            final(self).open_session() == old(self).open_session(),
            final(self).recovered_session() == old(self).recovered_session(),
    {
        self.tag = tag;
    }

    pub fn current_tag(&self) -> (t: Option<&String>)
        ensures
            match t {
                Some(x) => self.next_tag() == Some(*x),
                None => self.next_tag() is None,
            },
    {
        self.tag.as_ref()
    }

    /// Log lines the recorder produced (failed writes, automatic
    /// settlement) that were not collected yet.
    pub closed spec fn notes(&self) -> Seq<String> {
        self.notes@
    }

    /// Hands over the pending log lines, oldest first, and forgets them.
    pub fn take_notes(&mut self) -> (n: Vec<String>)
        ensures
            n@ == old(self).notes(),
            final(self).notes() == Seq::<String>::empty(),
            final(self).open_session() == old(self).open_session(),
            final(self).recording_on() == old(self).recording_on(),
            final(self).next_tag() == old(self).next_tag(),
            final(self).recovered_session() == old(self).recovered_session(),
            final(self).store_of() == old(self).store_of(),
    {
        let mut n = Vec::new();
        std::mem::swap(&mut n, &mut self.notes);
        n
    }

    /// The store, for statistics queries on the same connection.
    pub fn store(&self) -> (s: &Store)
        ensures
            *s == self.store_of(),
    {
        &self.store
    }

    /// The store, for settings and tag writes on the same connection; the
    /// recorder's own bookkeeping is untouched.
    pub fn store_mut(&mut self) -> (s: &mut Store)
        ensures
            *s == old(self).store_of(),
            final(self).store_of() == *final(s),
            final(self).open_session() == old(self).open_session(),
            final(self).recording_on() == old(self).recording_on(),
            final(self).next_tag() == old(self).next_tag(),
            final(self).recovered_session() == old(self).recovered_session(),
    {
        &mut self.store
    }

    /// Keeps the log line `prefix` followed by the message of `e`.
    fn note_failure(&mut self, prefix: &str, e: &StoreError)
        ensures
            final(self).notes().len() == old(self).notes().len() + 1,
            final(self).notes().drop_last() == old(self).notes(),
            exists|m: Seq<char>| final(self).notes().last()@ == prefix@ + m,
            final(self).open_session() == old(self).open_session(),
            final(self).recording_on() == old(self).recording_on(),
            final(self).next_tag() == old(self).next_tag(),
            final(self).recovered_session() == old(self).recovered_session(),
            final(self).store_of() == old(self).store_of(),
    {
        let mut line = String::from_str(prefix);
        let message = e.message();
        line.append(message.as_str());
        assert(line@ == prefix@ + message@);
        self.notes.push(line);
    }

    /// Start-up: settles stale sessions and takes over the newest resumable
    /// one as a paused open session.  A store failure recovers nothing.
    pub fn recover(&mut self) -> (r: Option<Recovered>)
        ensures
            final(self).recording_on() == old(self).recording_on(),
            final(self).next_tag() == old(self).next_tag(),
            match r {
                Some(s) => final(self).open_session() == Some(
                    OpenSession {
                        id: s.id,
                        last_state: TimerState::Paused,
                        last_elapsed_ms: s.elapsed_ms,
                    },
                ) && final(self).recovered_session() == Some(s),
                None => final(self).open_session() == old(self).open_session()
                    && final(self).recovered_session() == old(self).recovered_session(),
            },
            final(self).store_of().reads().len() == old(self).store_of().reads().len() + 1,
            final(self).store_of().reads().drop_last() == old(self).store_of().reads(),
            exists|now: u64, res: Result<Recovery, StoreError>|
                #[trigger] recovery_answered(
                    old(self).store_of().writes(),
                    final(self).store_of().writes(),
                    final(self).store_of().reads().last(),
                    now,
                    res,
                ) && r == match res {
                    Ok(rec) => rec.resume,
                    Err(_) => None::<Recovered>,
                },
            final(self).notes().take(old(self).notes().len() as int) == old(self).notes(),
    {
        let now = self.clock.wall_ms();
        let recovery = match self.store.recover_on_start(now) {
            Ok(recovery) => recovery,
            Err(e) => {
                self.note_failure("恢复未完成会话失败: ", &e);
                return None;
            },
        };
        if recovery.settled > 0 {
            let mut line = String::from_str("启动时自动结算了 ");
            push_decimal(&mut line, recovery.settled as u64);
            line.append(" 条残留会话");
            self.notes.push(line);
        }
        let session = recovery.resume?;
        self.open = Some(
            OpenSession { id: session.id, last_state: TimerState::Paused, last_elapsed_ms: session.elapsed_ms },
        );
        self.recovered = Some(session);
        Some(session)
    }

    /// The session recovered at start-up, for the front end's notice.
    pub fn recovery(&self) -> (r: Option<&Recovered>)
        ensures
            match r {
                Some(x) => self.recovered_session() == Some(*x),
                None => self.recovered_session() is None,
            },
    {
        self.recovered.as_ref()
    }

    /// Handles one engine snapshot: performs the write `log_write` names and
    /// moves the open session as `next_open` says.  Never panics.
    pub fn on_snapshot(&mut self, snapshot: TimerSnapshot)
        ensures
            exists|begun: Option<i64>| final(self).open_session() == next_open(
                old(self).open_session(),
                old(self).recording_on(),
                snapshot,
                begun,
            ),
            exists|wall: u64|
                wrote(
                    old(self).store_of().writes(),
                    final(self).store_of().writes(),
                    log_write(old(self).open_session(), old(self).recording_on(), snapshot),
                    opt_text(old(self).next_tag()),
                    wall,
                ),
            final(self).recording_on() == old(self).recording_on(),
            final(self).next_tag() == old(self).next_tag(),
            final(self).recovered_session() == old(self).recovered_session(),
            final(self).notes().len() <= old(self).notes().len() + 1,
            final(self).notes().take(old(self).notes().len() as int) == old(self).notes(),
            log_write(old(self).open_session(), old(self).recording_on(), snapshot) is Nothing
                ==> final(self).notes() == old(self).notes(),
    {
        let write = plan_log_write(self.open, self.recording, snapshot);
        let wall = self.clock.wall_ms();
        let ghost mut begun: Option<i64> = None;
        match write {
            LogWrite::Nothing => {},
            LogWrite::Begin { kind, limit_ms } => {
                let tag = match &self.tag {
                    Some(t) => Some(t.as_str()),
                    None => None,
                };
                match self.store.begin_session(kind, tag, wall, limit_ms) {
                    Ok(id) => {
                        proof {
                            begun = Some(id);
                        }
                        self.open = Some(
                            OpenSession {
                                id,
                                last_state: TimerState::Running,
                                last_elapsed_ms: snapshot.elapsed_ms,
                            },
                        );
                    },
                    Err(e) => self.note_failure("新建会话失败: ", &e),
                }
            },
            LogWrite::Resume { id, elapsed_ms } => {
                if let Err(e) = self.store.resume_session(id, wall, elapsed_ms) {
                    self.note_failure("继续会话失败: ", &e);
                }
            },
            LogWrite::Pause { id, elapsed_ms } => {
                if let Err(e) = self.store.pause_session(id, wall, elapsed_ms) {
                    self.note_failure("暂停会话失败: ", &e);
                }
            },
            LogWrite::Finish { id, elapsed_ms, completed } => {
                if let Err(e) = self.store.finish_session(id, wall, elapsed_ms, completed) {
                    self.note_failure("结算会话失败: ", &e);
                }
            },
        }
        self.open = match write {
            LogWrite::Begin { .. } => self.open,
            _ => match snapshot.state {
                TimerState::Running | TimerState::Paused => match self.open {
                    Some(o) => Some(
                        OpenSession {
                            id: o.id,
                            last_state: snapshot.state,
                            last_elapsed_ms: snapshot.elapsed_ms,
                        },
                    ),
                    None => None,
                },
                _ => None,
            },
        };
        assert(self.open_session() == next_open(
            old(self).open_session(),
            old(self).recording_on(),
            snapshot,
            begun,
        ));
        assert(wrote(
            old(self).store_of().writes(),
            self.store_of().writes(),
            log_write(old(self).open_session(), old(self).recording_on(), snapshot),
            opt_text(old(self).next_tag()),
            wall,
        ));
    }
}

/// A new session is stored as the kind of timer that runs: starting a timer
/// with a limit (a countdown) while recording opens a countdown session
/// with that limit, starting one without a limit opens a stopwatch session.
pub proof fn law_new_session_kind_follows_the_limit(s: TimerSnapshot)
    requires
        s.state == TimerState::Running,
    ensures
        log_write(None, true, s) is Begin,
        log_write(None, true, s)->Begin_limit_ms == s.limit_ms,
        (log_write(None, true, s)->Begin_kind == SessionKind::Countdown) <==> s.limit_ms is Some,
        (log_write(None, true, s)->Begin_kind == SessionKind::Stopwatch) <==> s.limit_ms is None,
{
}

/// A reset settles the open session with the time seen just before it, never
/// with the zero the reset reports.
pub proof fn law_reset_settles_last_seen_time(open: OpenSession, recording: bool, s: TimerSnapshot)
    requires
        s.state == TimerState::Idle,
    ensures
        log_write(Some(open), recording, s) == (LogWrite::Finish {
            id: open.id,
            elapsed_ms: open.last_elapsed_ms,
            completed: false,
        }),
        next_open(Some(open), recording, s, None) is None,
{
}

/// With recording off (a pomodoro break), running opens no session; a
/// session already open still advances as usual.
pub proof fn law_breaks_open_no_session(s: TimerSnapshot, begun: Option<i64>)
    requires
        s.state == TimerState::Running,
    ensures
        log_write(None, false, s) == LogWrite::Nothing,
        next_open(None, false, s, begun) is None,
{
}

/// A countdown that runs out settles its session as completed with the
/// reported time, and nothing stays open.
pub proof fn law_finish_settles_completed(open: OpenSession, recording: bool, s: TimerSnapshot)
    requires
        s.state == TimerState::Finished,
    ensures
        log_write(Some(open), recording, s) == (LogWrite::Finish {
            id: open.id,
            elapsed_ms: s.elapsed_ms,
            completed: true,
        }),
        next_open(Some(open), recording, s, None) is None,
{
}

/// Pause and resume each write once: a second paused (or running) snapshot
/// in a row writes nothing.
pub proof fn law_repeated_snapshots_write_nothing(
    open: Option<OpenSession>,
    recording: bool,
    s: TimerSnapshot,
    begun: Option<i64>,
)
    requires
        s.state == TimerState::Running || s.state == TimerState::Paused,
        open is Some,
    ensures
        log_write(next_open(open, recording, s, begun), recording, s) == LogWrite::Nothing,
{
}

} // verus!
