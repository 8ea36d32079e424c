//! The domain types of the session log.
//!
//! The persisted state names are part of the database contract, so they are
//! kept apart from the engine's `TimerState` on purpose.

use crate::text::str_eq;
use vstd::prelude::*;

verus! {

/// Whether a session counted up or down.
#[derive(Debug, Clone, Copy, PartialEq, Eq, Structural)]
pub enum SessionKind {
    Stopwatch,
    Countdown,
}

/// The stored text of a session kind.
pub open spec fn kind_text(kind: SessionKind) -> Seq<char> {
    match kind {
        SessionKind::Stopwatch => "stopwatch"@,
        SessionKind::Countdown => "countdown"@,
    }
}

/// The kind whose stored text is `raw`, if any.
pub open spec fn kind_from_text(raw: Seq<char>) -> Option<SessionKind> {
    if raw == "stopwatch"@ {
        Some(SessionKind::Stopwatch)
    } else if raw == "countdown"@ {
        Some(SessionKind::Countdown)
    } else {
        None
    }
}

impl SessionKind {
    pub fn as_str(self) -> (s: &'static str)
        ensures
            s@ == kind_text(self),
    {
        match self {
            SessionKind::Stopwatch => "stopwatch",
            SessionKind::Countdown => "countdown",
        }
    }

    /// Parses the stored text; anything else is `None`.
    pub fn parse(raw: &str) -> (k: Option<Self>)
        ensures
            k == kind_from_text(raw@),
    {
        if str_eq(raw, "stopwatch") {
            Some(SessionKind::Stopwatch)
        } else if str_eq(raw, "countdown") {
            Some(SessionKind::Countdown)
        } else {
            None
        }
    }
}

/// The persisted state of a session.
#[derive(Debug, Clone, Copy, PartialEq, Eq, Structural)]
pub enum SessionState {
    Running,
    Paused,
    Finished,
}

/// The stored text of a session state.
pub open spec fn state_text(state: SessionState) -> Seq<char> {
    match state {
        SessionState::Running => "running"@,
        SessionState::Paused => "paused"@,
        SessionState::Finished => "finished"@,
    }
}

/// The state whose stored text is `raw`, if any.
pub open spec fn state_from_text(raw: Seq<char>) -> Option<SessionState> {
    if raw == "running"@ {
        Some(SessionState::Running)
    } else if raw == "paused"@ {
        Some(SessionState::Paused)
    } else if raw == "finished"@ {
        Some(SessionState::Finished)
    } else {
        None
    }
}

impl SessionState {
    pub fn as_str(self) -> (s: &'static str)
        ensures
            s@ == state_text(self),
    {
        match self {
            SessionState::Running => "running",
            SessionState::Paused => "paused",
            SessionState::Finished => "finished",
        }
    }

    /// Parses the stored text; anything else is `None`.
    pub fn parse(raw: &str) -> (s: Option<Self>)
        ensures
            s == state_from_text(raw@),
    {
        if str_eq(raw, "running") {
            Some(SessionState::Running)
        } else if str_eq(raw, "paused") {
            Some(SessionState::Paused)
        } else if str_eq(raw, "finished") {
            Some(SessionState::Finished)
        } else {
            None
        }
    }
}

/// What is written is what is read back: parsing the stored text of a kind
/// or a state gives that kind or state again.
pub proof fn law_stored_text_round_trips(kind: SessionKind, state: SessionState)
    ensures
        kind_from_text(kind_text(kind)) == Some(kind),
        state_from_text(state_text(state)) == Some(state),
{
    reveal_strlit("stopwatch");
    reveal_strlit("countdown");
    reveal_strlit("running");
    reveal_strlit("paused");
    reveal_strlit("finished");
    assert("stopwatch"@[0] != "countdown"@[0]);
    assert("running"@[0] != "paused"@[0]);
    assert("running"@[0] != "finished"@[0]);
    assert("paused"@[0] != "finished"@[0]);
}

/// One complete session record.
#[derive(Debug, Clone, PartialEq, Eq)]
pub struct SessionRow {
    pub id: i64,
    pub kind: SessionKind,
    pub tag: Option<String>,
    pub state: SessionState,
    /// Wall clock when the session first started.
    pub started_at: i64,
    /// Wall clock at which the current run began (the pause time while paused).
    pub anchor_at: i64,
    /// Wall clock of settlement; `None` until settled.
    pub ended_at: Option<i64>,
    /// Time accumulated up to the last state change.
    pub elapsed_ms: i64,
    pub limit_ms: Option<i64>,
    /// Whether a countdown ran to its end (a manual stop is `false`).
    pub completed: bool,
    pub note: Option<String>,
}

/// An unsettled session found at start-up.
#[derive(Debug, Clone, Copy, PartialEq, Eq)]
pub struct Recovered {
    pub id: i64,
    pub kind: SessionKind,
    pub started_at: i64,
    /// Elapsed time recomputed with the anchor model.
    pub elapsed_ms: u64,
    pub limit_ms: Option<u64>,
    /// Wall-clock span from the session's start to this start-up.
    pub age_ms: u64,
}

/// The result of start-up recovery.
#[derive(Debug, Clone, PartialEq, Eq)]
pub struct Recovery {
    /// The session that may be continued (at most one: the newest).
    pub resume: Option<Recovered>,
    /// How many stale sessions were settled automatically.
    pub settled: usize,
}

impl Default for Recovery {
    fn default() -> (r: Self)
        ensures
            r.resume is None,
            r.settled == 0,
    {
        Recovery { resume: None, settled: 0 }
    }
}

/// The result of settling one session.
#[derive(Debug, Clone, Copy, PartialEq, Eq, Structural)]
pub enum FinishOutcome {
    /// Written to the statistics.
    Saved,
    /// Too short; deleted.
    Discarded,
}

/// Totals of one local day.
#[derive(Debug, Clone, PartialEq, Eq)]
pub struct DailyStat {
    /// Local `YYYY-MM-DD`.
    pub day: String,
    pub total_ms: i64,
    pub session_count: i64,
    pub completed_count: i64,
}

/// Totals of one tag; untagged sessions use the empty tag.
#[derive(Debug, Clone, PartialEq, Eq)]
pub struct TagTotal {
    pub tag: String,
    pub total_ms: i64,
    pub session_count: i64,
}

/// Total of one tag on one local day.
#[derive(Debug, Clone, PartialEq, Eq)]
pub struct TagDayTotal {
    /// Local `YYYY-MM-DD`.
    pub day: String,
    /// Empty for untagged.
    pub tag: String,
    pub total_ms: i64,
}

/// Total of one local hour (0-23) of session start.
#[derive(Debug, Clone, PartialEq, Eq)]
pub struct HourTotal {
    pub hour: u32,
    pub total_ms: i64,
    pub session_count: i64,
}

} // verus!
