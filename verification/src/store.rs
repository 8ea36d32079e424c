//! The SQLite session store: schema, session writes, start-up recovery and
//! statistics queries.
//!
//! What is persisted is not "how much has accumulated" but "from which moment
//! it runs" (the anchor), so a killed process loses nothing: reading back
//! `anchor_at` recomputes how long the session has run.

use crate::db;
use crate::db::{args_of, SqlArg, SqlValue};
use crate::session::{
    kind_from_text, kind_text, state_from_text, DailyStat, FinishOutcome, HourTotal, Recovered, Recovery,
    SessionKind, SessionRow, SessionState, TagDayTotal, TagTotal,
};
use vstd::prelude::*;

verus! {

/// Sessions shorter than this are deleted instead of saved: a misclick that
/// is reset after a moment must not pollute the statistics.
pub const MIN_SESSION_MS: u64 = 10_000;

/// The longest span since a session's start that start-up recovery still
/// offers to continue (12 hours).
pub const MAX_RESUME_GAP_MS: i64 = 12 * 60 * 60 * 1000;

/// How long a write waits for another connection's lock.
pub const BUSY_TIMEOUT_MS: u64 = 5_000;

/// How many times opening a database file is attempted.
pub const OPEN_ATTEMPTS: u32 = 3;

/// The pause between two attempts to open a database file.
pub const OPEN_BACKOFF_MS: u64 = 400;

/// The schema; every statement may run again on an existing database.
pub const SCHEMA: &'static str = "
CREATE TABLE IF NOT EXISTS session (
    id         INTEGER PRIMARY KEY,
    kind       TEXT    NOT NULL,
    tag        TEXT,
    state      TEXT    NOT NULL,
    started_at INTEGER NOT NULL,
    anchor_at  INTEGER NOT NULL,
    ended_at   INTEGER,
    elapsed_ms INTEGER NOT NULL DEFAULT 0,
    limit_ms   INTEGER,
    completed  INTEGER NOT NULL DEFAULT 0,
    note       TEXT
);
CREATE INDEX IF NOT EXISTS idx_session_state   ON session(state);
CREATE INDEX IF NOT EXISTS idx_session_started ON session(started_at);
CREATE TABLE IF NOT EXISTS setting (
    key   TEXT PRIMARY KEY,
    value TEXT NOT NULL
);
";

/// Errors of the store.
#[derive(Debug)]
pub enum StoreError {
    /// The database driver failed.
    Db(rusqlite::Error),
    /// A stored session kind this program never writes: the data was edited outside.
    UnknownKind(String),
    /// A stored session state this program never writes.
    UnknownState(String),
}

impl StoreError {
    /// A one-line description for the user.
    pub fn message(&self) -> (s: String)
        ensures
            self is Db ==> exists|detail: Seq<char>| s@ == "数据库错误: "@ + detail,
            self matches StoreError::UnknownKind(raw) ==> s@ == "无法识别的会话类型: "@ + raw@,
            self matches StoreError::UnknownState(raw) ==> s@ == "无法识别的会话状态: "@ + raw@,
    {
        match self {
            StoreError::Db(err) => {
                let mut s = String::from_str("数据库错误: ");
                let detail = db::error_text(err);
                s.append(detail.as_str());
                assert(s@ == "数据库错误: "@ + detail@);
                s
            },
            StoreError::UnknownKind(raw) => {
                let mut s = String::from_str("无法识别的会话类型: ");
                s.append(raw.as_str());
                s
            },
            StoreError::UnknownState(raw) => {
                let mut s = String::from_str("无法识别的会话状态: ");
                s.append(raw.as_str());
                s
            },
        }
    }
}

impl From<rusqlite::Error> for StoreError {
    fn from(err: rusqlite::Error) -> (e: Self)
        ensures
            e == StoreError::Db(err),
    {
        StoreError::Db(err)
    }
}

impl vstd::std_specs::convert::FromSpecImpl<rusqlite::Error> for StoreError {
    open spec fn obeys_from_spec() -> bool {
        true
    }

    open spec fn from_spec(v: rusqlite::Error) -> StoreError {
        StoreError::Db(v)
    }
}

/// Tags a driver result as a store result.
fn db_result<T>(r: Result<T, rusqlite::Error>) -> (o: Result<T, StoreError>)
    ensures
        match r {
            Ok(v) => o == Ok::<T, StoreError>(v),
            Err(e) => o == Err::<T, StoreError>(StoreError::Db(e)),
        },
{
    match r {
        Ok(v) => Ok(v),
        Err(e) => Err(StoreError::Db(e)),
    }
}

/// Parses a stored kind, reporting text it does not know instead of guessing.
fn parse_kind(raw: String) -> (r: Result<SessionKind, StoreError>)
    ensures
        match kind_from_text(raw@) {
            Some(k) => r matches Ok(x) && x == k,
            None => r matches Err(StoreError::UnknownKind(t)) && t@ == raw@,
        },
{
    match SessionKind::parse(raw.as_str()) {
        Some(k) => Ok(k),
        None => Err(StoreError::UnknownKind(raw)),
    }
}

/// Parses a stored state, reporting text it does not know instead of guessing.
fn parse_state(raw: String) -> (r: Result<SessionState, StoreError>)
    ensures
        match state_from_text(raw@) {
            Some(s) => r matches Ok(x) && x == s,
            None => r matches Err(StoreError::UnknownState(t)) && t@ == raw@,
        },
{
    match SessionState::parse(raw.as_str()) {
        Some(s) => Ok(s),
        None => Err(StoreError::UnknownState(raw)),
    }
}

// ---------------------------------------------------------------------------
// Start-up recovery, as a decision per unsettled row.
// ---------------------------------------------------------------------------

/// `i64` arithmetic clamped to the `i64` range.
pub open spec fn clamp_i64(x: int) -> i64 {
    if x > i64::MAX {
        i64::MAX
    } else if x < i64::MIN {
        i64::MIN
    } else {
        x as i64
    }
}

/// `i64::saturating_add`.
pub fn saturating_add_i64(a: i64, b: i64) -> (r: i64)
    ensures
        r == clamp_i64(a + b),
{
    match a.checked_add(b) {
        Some(v) => v,
        None => if b > 0 {
            i64::MAX
        } else {
            i64::MIN
        },
    }
}

/// `i64::saturating_sub`.
pub fn saturating_sub_i64(a: i64, b: i64) -> (r: i64)
    ensures
        r == clamp_i64(a - b),
{
    match a.checked_sub(b) {
        Some(v) => v,
        None => if b < 0 {
            i64::MAX
        } else {
            i64::MIN
        },
    }
}

/// An unsettled session as read back at start-up.
#[derive(Debug, Clone, Copy, PartialEq, Eq)]
pub struct OpenSessionRow {
    pub id: i64,
    pub kind: SessionKind,
    pub state: SessionState,
    pub started_at: i64,
    pub anchor_at: i64,
    pub elapsed_ms: i64,
    pub limit_ms: Option<i64>,
}

impl OpenSessionRow {
    /// Elapsed time recomputed with the anchor model at wall time `now`: a
    /// running session adds the span since its anchor (a clock set back
    /// before the anchor adds nothing), a paused one does not count the gap.
    pub open spec fn recomputed_elapsed(self, now: i64) -> i64 {
        if self.state == SessionState::Running {
            let gap = clamp_i64(now - self.anchor_at);
            clamp_i64(self.elapsed_ms + (if gap < 0 { 0 } else { gap }))
        } else {
            self.elapsed_ms
        }
    }

    /// A countdown that ran past its limit while the app was closed.
    pub open spec fn reached_limit(self, now: i64) -> bool {
        self.limit_ms is Some && self.recomputed_elapsed(now) >= self.limit_ms->0
    }

    /// The recomputed elapsed time, capped at the limit.
    pub open spec fn capped_elapsed(self, now: i64) -> i64 {
        if self.reached_limit(now) {
            self.limit_ms->0
        } else {
            self.recomputed_elapsed(now)
        }
    }

    /// Started longer ago than the resume gap allows.
    pub open spec fn expired(self, now: i64) -> bool {
        clamp_i64(now - self.started_at) > MAX_RESUME_GAP_MS
    }

    /// May be offered for continuation (if no newer session was).
    pub open spec fn eligible(self, now: i64) -> bool {
        !self.reached_limit(now) && !self.expired(now)
    }
}

/// What recovery does with one unsettled row.
#[derive(Debug, Clone, Copy, PartialEq, Eq)]
#[allow(inconsistent_fields)]
pub enum RecoveryStep {
    /// Settle the session with this elapsed time.
    Settle { id: i64, elapsed_ms: u64, completed: bool },
    /// Offer the session for continuation, after writing it back as paused
    /// with `elapsed_ms` accumulated and its anchor at `anchor_at`.
    Resume { session: Recovered, elapsed_ms: i64, anchor_at: i64 },
}

/// Wall-clock span from `started_at` (negative start times count as zero) to `now_wall`.
pub open spec fn age_of(started_at: i64, now_wall: u64) -> u64 {
    let start = if started_at > 0 { started_at as u64 } else { 0u64 };
    if now_wall >= start { (now_wall - start) as u64 } else { 0u64 }
}

/// The session offered for continuation when `row` is resumed at `now_wall`.
pub open spec fn resumed_session(row: OpenSessionRow, now_wall: u64) -> Recovered {
    let now = now_wall as i64;
    Recovered {
        id: row.id,
        kind: row.kind,
        started_at: row.started_at,
        elapsed_ms: row.capped_elapsed(now) as u64,
        limit_ms: match row.limit_ms {
            Some(l) => Some(l as u64),
            None => None,
        },
        age_ms: age_of(row.started_at, now_wall),
    }
}

/// The decision for `row` at wall time `now_wall`; `resume_taken` says a newer
/// session was already offered.  Reached limits, expired sessions and all but
/// the newest eligible session are settled (completed only when the limit was
/// reached); the newest eligible one is offered for continuation.
pub open spec fn recovery_step(row: OpenSessionRow, now_wall: u64, resume_taken: bool) -> RecoveryStep {
    let now = now_wall as i64;
    if !row.eligible(now) || resume_taken {
        RecoveryStep::Settle {
            id: row.id,
            elapsed_ms: row.capped_elapsed(now) as u64,
            completed: row.reached_limit(now),
        }
    } else {
        RecoveryStep::Resume {
            session: resumed_session(row, now_wall),
            elapsed_ms: row.capped_elapsed(now),
            anchor_at: now,
        }
    }
}

/// The recovery result after deciding `rows` in order (newest first).
pub open spec fn recovery_outcome(rows: Seq<OpenSessionRow>, now_wall: u64) -> Recovery
    decreases rows.len(),
{
    if rows.len() == 0 {
        Recovery { resume: None, settled: 0 }
    } else {
        let prev = recovery_outcome(rows.drop_last(), now_wall);
        match recovery_step(rows.last(), now_wall, prev.resume is Some) {
            RecoveryStep::Settle { .. } => Recovery {
                settled: (prev.settled + 1) as usize,
                ..prev
            },
            RecoveryStep::Resume { session, .. } => Recovery { resume: Some(session), ..prev },
        }
    }
}

/// Decides what recovery does with one unsettled row.
pub fn plan_recovery_step(row: &OpenSessionRow, now_wall_ms: u64, resume_taken: bool) -> (step:
    RecoveryStep)
    ensures
        step == recovery_step(*row, now_wall_ms, resume_taken),
{
    let now = now_wall_ms as i64;
    let raw_elapsed = if row.state == SessionState::Running {
        let gap = saturating_sub_i64(now, row.anchor_at);
        let gap = if gap < 0 {
            0
        } else {
            gap
        };
        saturating_add_i64(row.elapsed_ms, gap)
    } else {
        row.elapsed_ms
    };
    let reached_limit = match row.limit_ms {
        Some(limit) => raw_elapsed >= limit,
        None => false,
    };
    let elapsed_ms = match row.limit_ms {
        Some(limit) => if raw_elapsed >= limit {
            limit
        } else {
            raw_elapsed
        },
        None => raw_elapsed,
    };
    let expired = saturating_sub_i64(now, row.started_at) > MAX_RESUME_GAP_MS;
    let start: u64 = if row.started_at > 0 {
        row.started_at as u64
    } else {
        0
    };
    let age_ms = now_wall_ms.saturating_sub(start);
    if reached_limit || expired || resume_taken {
        RecoveryStep::Settle { id: row.id, elapsed_ms: elapsed_ms as u64, completed: reached_limit }
    } else {
        let limit_ms = match row.limit_ms {
            Some(l) => Some(l as u64),
            None => None,
        };
        RecoveryStep::Resume {
            session: Recovered {
                id: row.id,
                kind: row.kind,
                started_at: row.started_at,
                elapsed_ms: elapsed_ms as u64,
                limit_ms,
                age_ms,
            },
            elapsed_ms,
            anchor_at: now,
        }
    }
}

/// The session that recovery offers is the row it came from: same id,
/// kind, start time and limit, with the recomputed (capped) elapsed time,
/// which never exceeds the limit.
pub proof fn law_offered_session_is_its_row(row: OpenSessionRow, now_wall: u64, taken: bool)
    requires
        recovery_step(row, now_wall, taken) is Resume,
    ensures
        ({
            let s = recovery_step(row, now_wall, taken)->Resume_session;
            &&& s.id == row.id
            &&& s.kind == row.kind
            &&& s.started_at == row.started_at
            &&& (row.limit_ms is None <==> s.limit_ms is None)
            &&& (row.limit_ms matches Some(l) ==> s.limit_ms == Some(l as u64))
            &&& (row.limit_ms matches Some(l) ==> recovery_step(row, now_wall, taken)->Resume_elapsed_ms < l)
            &&& !taken
        }),
{
}

/// A running session is recomputed with the anchor model: at wall time `now`
/// its elapsed time is what was stored plus the span since its anchor.
pub proof fn law_recovery_recomputes_running(row: OpenSessionRow, now_wall: u64)
    requires
        row.state == SessionState::Running,
        now_wall <= i64::MAX,
        row.elapsed_ms >= 0,
        row.anchor_at <= now_wall,
        row.elapsed_ms + (now_wall - row.anchor_at) <= i64::MAX,
    ensures
        row.recomputed_elapsed(now_wall as i64) == row.elapsed_ms + (now_wall - row.anchor_at),
{
}

/// A system clock set back before the anchor never makes a running session shorter.
pub proof fn law_recovery_never_shrinks_running(row: OpenSessionRow, now: i64)
    requires
        row.state == SessionState::Running,
        row.elapsed_ms >= 0,
    ensures
        row.recomputed_elapsed(now) >= row.elapsed_ms,
{
}

/// A paused session does not count the time the app was closed.
pub proof fn law_recovery_ignores_paused_gap(row: OpenSessionRow, now: i64)
    requires
        row.state == SessionState::Paused,
    ensures
        row.recomputed_elapsed(now) == row.elapsed_ms,
{
}

/// A countdown that reached its limit while closed is settled as completed,
/// capped at its limit.
pub proof fn law_recovery_settles_reached_limit(row: OpenSessionRow, now_wall: u64, taken: bool)
    requires
        row.reached_limit(now_wall as i64),
    ensures
        recovery_step(row, now_wall, taken) == (RecoveryStep::Settle {
            id: row.id,
            elapsed_ms: row.limit_ms->0 as u64,
            completed: true,
        }),
{
}

/// A session started longer ago than the resume gap is settled, not resumed.
pub proof fn law_recovery_settles_expired(row: OpenSessionRow, now_wall: u64, taken: bool)
    requires
        row.expired(now_wall as i64),
    ensures
        recovery_step(row, now_wall, taken) is Settle,
{
}

/// Recovery is idempotent across restarts: a session resumed at `now1` and
/// written back as paused recovers to the same elapsed time at any later
/// start-up within the resume gap, however long the app stayed closed.
pub proof fn law_recovery_idempotent(row: OpenSessionRow, now1: u64, now2: u64)
    requires
        recovery_step(row, now1, false) is Resume,
        !row.expired(now2 as i64),
    ensures
        ({
            let first = recovery_step(row, now1, false);
            let written = OpenSessionRow {
                state: SessionState::Paused,
                elapsed_ms: first->Resume_elapsed_ms,
                anchor_at: first->Resume_anchor_at,
                ..row
            };
            &&& recovery_step(written, now2, false) is Resume
            &&& recovery_step(written, now2, false)->Resume_session.elapsed_ms
                == first->Resume_session.elapsed_ms
            &&& recovery_step(written, now2, false)->Resume_session.id == row.id
            &&& recovery_step(written, now2, false)->Resume_elapsed_ms == first->Resume_elapsed_ms
        }),
{
}

/// Every unsettled session is either offered or settled, and at most one is offered.
pub proof fn law_recovery_accounts_for_every_row(rows: Seq<OpenSessionRow>, now_wall: u64)
    requires
        rows.len() <= usize::MAX,
    ensures
        recovery_outcome(rows, now_wall).settled + (if recovery_outcome(
            rows,
            now_wall,
        ).resume is Some {
            1int
        } else {
            0int
        }) == rows.len(),
    decreases rows.len(),
{
    if rows.len() > 0 {
        law_recovery_accounts_for_every_row(rows.drop_last(), now_wall);
    }
}

/// Only the newest eligible session is offered: nothing is offered when no
/// session is eligible, and otherwise the offer is the first eligible row (rows
/// come newest first).
pub proof fn law_recovery_offers_first_eligible(rows: Seq<OpenSessionRow>, now_wall: u64)
    ensures
        recovery_outcome(rows, now_wall).resume is None <==> (forall|i: int|
            0 <= i < rows.len() ==> !#[trigger] rows[i].eligible(now_wall as i64)),
        recovery_outcome(rows, now_wall).resume matches Some(x) ==> exists|i: int|
            0 <= i < rows.len() && rows[i].eligible(now_wall as i64) && x == resumed_session(
                rows[i],
                now_wall,
            ) && forall|j: int| 0 <= j < i ==> !#[trigger] rows[j].eligible(now_wall as i64),
    decreases rows.len(),
{
    if rows.len() > 0 {
        let init = rows.drop_last();
        law_recovery_offers_first_eligible(init, now_wall);
        let prev = recovery_outcome(init, now_wall);
        assert forall|i: int| 0 <= i < init.len() implies #[trigger] init[i] == rows[i] by {}
        if prev.resume is Some {
            let x = prev.resume->0;
            let i = choose|i: int|
                0 <= i < init.len() && init[i].eligible(now_wall as i64) && x == resumed_session(
                    init[i],
                    now_wall,
                ) && forall|j: int| 0 <= j < i ==> !#[trigger] init[j].eligible(now_wall as i64);
            assert(rows[i] == init[i]);
            assert forall|j: int| 0 <= j < i implies !#[trigger] rows[j].eligible(
                now_wall as i64,
            ) by {
                assert(rows[j] == init[j]);
            }
        } else {
            let last = rows.len() - 1;
            assert(rows[last] == rows.last());
            assert forall|j: int| 0 <= j < last implies !#[trigger] rows[j].eligible(
                now_wall as i64,
            ) by {
                assert(rows[j] == init[j]);
                assert(!init[j].eligible(now_wall as i64));
            }
        }
    }
}

/// The outcome of reading the retry loop of `open`: give up now, or sleep and try again.
#[derive(Debug, Clone, Copy, PartialEq, Eq, Structural)]
pub enum OpenRetry {
    GiveUp,
    SleepThenRetry,
}

/// The retry policy of opening a file: only driver failures (possibly a
/// passing lock conflict) are retried, never data that does not parse, and
/// not after the last of `attempts` tries (`attempts` counts at least one).
pub fn open_retry(err: &StoreError, attempt: u32, attempts: u32) -> (r: OpenRetry)
    ensures
        r == OpenRetry::SleepThenRetry <==> (err is Db && attempt + 1 < (if attempts
            == 0 {
            1
        } else {
            attempts
        })),
{
    let attempts = if attempts == 0 {
        1
    } else {
        attempts
    };
    match err {
        StoreError::Db(_) => if (attempt as u64) + 1 < attempts as u64 {
            OpenRetry::SleepThenRetry
        } else {
            OpenRetry::GiveUp
        },
        _ => OpenRetry::GiveUp,
    }
}

// ---------------------------------------------------------------------------
// Session writes: what the store hands to the database.
// ---------------------------------------------------------------------------

pub const OPEN_ROWS_SQL: &'static str = "SELECT id, kind, state, started_at, anchor_at, elapsed_ms, limit_ms
                 FROM session
                 WHERE state IN ('running', 'paused')
                 ORDER BY started_at DESC";

pub const DAILY_STATS_SQL: &'static str = "SELECT day, total_ms, session_count, completed_count FROM (
                     SELECT date(started_at / 1000, 'unixepoch', 'localtime') AS day,
                            SUM(elapsed_ms)  AS total_ms,
                            COUNT(*)         AS session_count,
                            SUM(completed)   AS completed_count
                     FROM session
                     WHERE state = 'finished' AND ended_at IS NOT NULL
                     GROUP BY day
                 )
                 WHERE day BETWEEN ?1 AND ?2
                 ORDER BY day";

pub const FINISHED_ROWS_SQL: &'static str = "SELECT id, kind, tag, state, started_at, anchor_at, ended_at,
                        elapsed_ms, limit_ms, completed, note
                 FROM session
                 WHERE state = 'finished' AND ended_at IS NOT NULL
                 ORDER BY started_at";

pub const GET_SETTING_SQL: &'static str = "SELECT value FROM setting WHERE key = ?1";

pub const TAG_TOTALS_SQL: &'static str = "SELECT IFNULL(tag, '') AS tag,
                        SUM(elapsed_ms) AS total_ms,
                        COUNT(*)        AS session_count
                 FROM session
                 WHERE state = 'finished' AND ended_at IS NOT NULL
                   AND date(started_at / 1000, 'unixepoch', 'localtime') BETWEEN ?1 AND ?2
                 GROUP BY tag
                 ORDER BY total_ms DESC";

pub const TAG_DAY_TOTALS_SQL: &'static str = "SELECT date(started_at / 1000, 'unixepoch', 'localtime') AS day,
                        IFNULL(tag, '')            AS tag,
                        SUM(elapsed_ms)            AS total_ms
                 FROM session
                 WHERE state = 'finished' AND ended_at IS NOT NULL
                   AND date(started_at / 1000, 'unixepoch', 'localtime') BETWEEN ?1 AND ?2
                 GROUP BY day, tag
                 ORDER BY day, total_ms DESC";

pub const HOUR_TOTALS_SQL: &'static str = "SELECT CAST(strftime('%H', started_at / 1000, 'unixepoch', 'localtime') AS INTEGER)
                        AS hour,
                        SUM(elapsed_ms) AS total_ms,
                        COUNT(*)        AS session_count
                 FROM session
                 WHERE state = 'finished' AND ended_at IS NOT NULL
                   AND date(started_at / 1000, 'unixepoch', 'localtime') BETWEEN ?1 AND ?2
                 GROUP BY hour
                 ORDER BY hour";

pub const TOTAL_SQL: &'static str = "SELECT SUM(elapsed_ms) FROM session WHERE state = 'finished' AND ended_at IS NOT NULL";

pub const FINISHED_COUNT_SQL: &'static str = "SELECT COUNT(*) FROM session WHERE state = 'finished' AND ended_at IS NOT NULL";

pub const BEGIN_SQL: &'static str = "INSERT INTO session (kind, tag, state, started_at, anchor_at, elapsed_ms, limit_ms, completed)
                 VALUES (?1, ?2, 'running', ?3, ?3, 0, ?4, 0)";

pub const PAUSE_SQL: &'static str = "UPDATE session SET state = 'paused', elapsed_ms = ?2, anchor_at = ?3
                 WHERE id = ?1 AND state = 'running'";

pub const RESUME_SQL: &'static str = "UPDATE session SET state = 'running', anchor_at = ?2, elapsed_ms = ?3
                 WHERE id = ?1 AND state <> 'finished'";

pub const DELETE_SQL: &'static str = "DELETE FROM session WHERE id = ?1";

pub const FINISH_SQL: &'static str = "UPDATE session SET state = 'finished', ended_at = ?2, elapsed_ms = ?3, completed = ?4
                 WHERE id = ?1";

pub const SETTING_SQL: &'static str = "INSERT INTO setting (key, value) VALUES (?1, ?2)
                 ON CONFLICT(key) DO UPDATE SET value = excluded.value";

pub const RENAME_TAG_SQL: &'static str = "UPDATE session SET tag = ?2 WHERE IFNULL(tag, '') = ?1";

pub const WRITE_BACK_SQL: &'static str = "UPDATE session SET state = 'paused', elapsed_ms = ?2, anchor_at = ?3
                 WHERE id = ?1";

/// One write to the database, with the values handed to it.
#[derive(Debug, Clone, PartialEq, Eq)]
pub enum StoreWrite {
    /// Insert a running session started (and anchored) at `started_at`.
    Begin { kind: SessionKind, tag: Option<String>, started_at: i64, limit_ms: Option<i64> },
    /// Pause session `id` if it runs, with `elapsed_ms` accumulated and the pause time as anchor.
    Pause { id: i64, elapsed_ms: i64, anchor_at: i64 },
    /// Run session `id` again (unless settled) from anchor `anchor_at`.
    Resume { id: i64, anchor_at: i64, elapsed_ms: i64 },
    /// Delete session `id` (too short to keep).
    Delete { id: i64 },
    /// Save session `id` as finished at `ended_at`; `completed` is the stored flag (0 or 1).
    Finish { id: i64, ended_at: i64, elapsed_ms: i64, completed: i64 },
    /// Write session `id` back as paused with `elapsed_ms` accumulated and anchor `anchor_at`.
    WriteBack { id: i64, elapsed_ms: i64, anchor_at: i64 },
    /// Store `value` under the setting `key`, replacing any earlier value.
    Setting { key: String, value: String },
    /// Set the tag of every session tagged `from` (empty: untagged) to `to`.
    RenameTag { from: String, to: Option<String> },
    /// Switch to WAL (best effort), enable foreign keys and create the schema.
    Migrate,
}

/// The text of an optional string.
pub open spec fn opt_text(t: Option<String>) -> Option<Seq<char>> {
    match t {
        Some(s) => Some(s@),
        None => None,
    }
}

/// The text of an optional string slice.
pub open spec fn opt_str_text(t: Option<&str>) -> Option<Seq<char>> {
    match t {
        Some(s) => Some(s@),
        None => None,
    }
}

/// An optional `u64` as stored (two's complement `i64`).
pub open spec fn opt_as_i64(v: Option<u64>) -> Option<i64> {
    match v {
        Some(x) => Some(x as i64),
        None => None,
    }
}

/// Whether `w` begins a session of `kind` tagged `tag`, started at `started_at`, limited to `limit_ms`.
pub open spec fn is_begin_write(
    w: StoreWrite,
    kind: SessionKind,
    tag: Option<Seq<char>>,
    started_at: i64,
    limit_ms: Option<i64>,
) -> bool {
    w matches StoreWrite::Begin { kind: k, tag: t, started_at: s, limit_ms: l } && k == kind
        && opt_text(t) == tag && s == started_at && l == limit_ms
}

/// One call handed to the SQLite driver: a statement with its bound
/// parameters, a query with its parameters, a pragma, or a batch of statements.
pub enum SqlCall {
    Execute { sql: Seq<char>, args: Seq<SqlArg> },
    Query { sql: Seq<char>, args: Seq<SqlArg> },
    Pragma { name: Seq<char>, value: Seq<char> },
    Batch { sql: Seq<char> },
}

/// An optional text as a bound parameter (`NULL` for `None`).
pub open spec fn opt_text_arg(t: Option<String>) -> SqlArg {
    match t {
        Some(s) => SqlArg::Text(s@),
        None => SqlArg::Null,
    }
}

/// An optional integer as a bound parameter (`NULL` for `None`).
pub open spec fn opt_int_arg(v: Option<i64>) -> SqlArg {
    match v {
        Some(x) => SqlArg::Int(x),
        None => SqlArg::Null,
    }
}

/// The statement and parameters (`?1`, `?2`, ... in order) that carry out `w`.
pub open spec fn write_statement(w: StoreWrite) -> (Seq<char>, Seq<SqlArg>) {
    match w {
        StoreWrite::Begin { kind, tag, started_at, limit_ms } => (
            BEGIN_SQL@,
            seq![SqlArg::Text(kind_text(kind)), opt_text_arg(tag), SqlArg::Int(started_at), opt_int_arg(limit_ms)],
        ),
        StoreWrite::Pause { id, elapsed_ms, anchor_at } => (
            PAUSE_SQL@,
            seq![SqlArg::Int(id), SqlArg::Int(elapsed_ms), SqlArg::Int(anchor_at)],
        ),
        StoreWrite::Resume { id, anchor_at, elapsed_ms } => (
            RESUME_SQL@,
            seq![SqlArg::Int(id), SqlArg::Int(anchor_at), SqlArg::Int(elapsed_ms)],
        ),
        StoreWrite::Delete { id } => (DELETE_SQL@, seq![SqlArg::Int(id)]),
        StoreWrite::Finish { id, ended_at, elapsed_ms, completed } => (
            FINISH_SQL@,
            seq![SqlArg::Int(id), SqlArg::Int(ended_at), SqlArg::Int(elapsed_ms), SqlArg::Int(completed)],
        ),
        StoreWrite::WriteBack { id, elapsed_ms, anchor_at } => (
            WRITE_BACK_SQL@,
            seq![SqlArg::Int(id), SqlArg::Int(elapsed_ms), SqlArg::Int(anchor_at)],
        ),
        StoreWrite::Setting { key, value } => (SETTING_SQL@, seq![SqlArg::Text(key@), SqlArg::Text(value@)]),
        StoreWrite::RenameTag { from, to } => (RENAME_TAG_SQL@, seq![SqlArg::Text(from@), opt_text_arg(to)]),
        StoreWrite::Migrate => (SCHEMA@, Seq::empty()),
    }
}

/// The driver calls that carry out `w`: one statement, or for the schema
/// the two pragmas and the schema batch.
pub open spec fn write_calls(w: StoreWrite) -> Seq<SqlCall> {
    match w {
        StoreWrite::Migrate => seq![
            SqlCall::Pragma { name: "journal_mode"@, value: "WAL"@ },
            SqlCall::Pragma { name: "foreign_keys"@, value: "ON"@ },
            SqlCall::Batch { sql: SCHEMA@ },
        ],
        _ => seq![SqlCall::Execute { sql: write_statement(w).0, args: write_statement(w).1 }],
    }
}

/// The driver calls that carry out the writes `ws`, in order.
pub open spec fn calls_of_writes(ws: Seq<StoreWrite>) -> Seq<SqlCall>
    decreases ws.len(),
{
    if ws.len() == 0 {
        Seq::empty()
    } else {
        calls_of_writes(ws.drop_last()) + write_calls(ws.last())
    }
}

/// The query of `sql` with parameters `args`.
pub open spec fn query_call(sql: Seq<char>, args: Seq<SqlArg>) -> SqlCall {
    SqlCall::Query { sql, args }
}

/// The parameters of a query over the local days `from_day..=to_day`.
pub open spec fn day_args(from_day: Seq<char>, to_day: Seq<char>) -> Seq<SqlArg> {
    seq![SqlArg::Text(from_day), SqlArg::Text(to_day)]
}

fn day_params(from_day: &str, to_day: &str) -> (p: Vec<SqlValue>)
    ensures
        args_of(p@) == day_args(from_day@, to_day@),
{
    let p = vec![SqlValue::Text(String::from_str(from_day)), SqlValue::Text(String::from_str(to_day))];
    assert(args_of(p@) =~= day_args(from_day@, to_day@));
    p
}

fn opt_text_param(t: &Option<String>) -> (v: SqlValue)
    ensures
        v@ == opt_text_arg(*t),
{
    match t {
        Some(s) => SqlValue::Text(s.clone()),
        None => SqlValue::Null,
    }
}

/// The statement and parameters that carry out `w` (any write but the schema).
pub fn statement_of(w: &StoreWrite) -> (r: (&'static str, Vec<SqlValue>))
    requires
        !(*w is Migrate),
    ensures
        r.0@ == write_statement(*w).0,
        args_of(r.1@) == write_statement(*w).1,
{
    let r: (&'static str, Vec<SqlValue>) = match w {
        StoreWrite::Begin { kind, tag, started_at, limit_ms } => {
            let limit = match limit_ms {
                Some(l) => SqlValue::Int(*l),
                None => SqlValue::Null,
            };
            (
                BEGIN_SQL,
                vec![
                    SqlValue::Text(String::from_str(kind.as_str())),
                    opt_text_param(tag),
                    SqlValue::Int(*started_at),
                    limit,
                ],
            )
        },
        StoreWrite::Pause { id, elapsed_ms, anchor_at } => (
            PAUSE_SQL,
            vec![SqlValue::Int(*id), SqlValue::Int(*elapsed_ms), SqlValue::Int(*anchor_at)],
        ),
        StoreWrite::Resume { id, anchor_at, elapsed_ms } => (
            RESUME_SQL,
            vec![SqlValue::Int(*id), SqlValue::Int(*anchor_at), SqlValue::Int(*elapsed_ms)],
        ),
        StoreWrite::Delete { id } => (DELETE_SQL, vec![SqlValue::Int(*id)]),
        StoreWrite::Finish { id, ended_at, elapsed_ms, completed } => (
            FINISH_SQL,
            vec![
                SqlValue::Int(*id),
                SqlValue::Int(*ended_at),
                SqlValue::Int(*elapsed_ms),
                SqlValue::Int(*completed),
            ],
        ),
        StoreWrite::WriteBack { id, elapsed_ms, anchor_at } => (
            WRITE_BACK_SQL,
            vec![SqlValue::Int(*id), SqlValue::Int(*elapsed_ms), SqlValue::Int(*anchor_at)],
        ),
        StoreWrite::Setting { key, value } => (
            SETTING_SQL,
            vec![SqlValue::Text(key.clone()), SqlValue::Text(value.clone())],
        ),
        StoreWrite::RenameTag { from, to } => (
            RENAME_TAG_SQL,
            vec![SqlValue::Text(from.clone()), opt_text_param(to)],
        ),
        StoreWrite::Migrate => (SCHEMA, Vec::new()),
    };
    assert(args_of(r.1@) =~= write_statement(*w).1);
    r
}

/// Whether `w` stores `value` under the setting `key`.
pub open spec fn is_setting_write(w: StoreWrite, key: Seq<char>, value: Seq<char>) -> bool {
    w matches StoreWrite::Setting { key: k, value: v } && k@ == key && v@ == value
}

/// Whether `w` renames the tag `from` to `to`.
pub open spec fn is_rename_write(w: StoreWrite, from: Seq<char>, to: Option<Seq<char>>) -> bool {
    w matches StoreWrite::RenameTag { from: f, to: t } && f@ == from && opt_text(t) == to
}

/// The write that settles session `id` at wall time `wall_ms`: a session
/// shorter than [`MIN_SESSION_MS`] is deleted, any other saved as finished.
pub open spec fn finish_write_spec(id: i64, wall_ms: u64, elapsed_ms: u64, completed: bool) -> StoreWrite {
    if elapsed_ms < MIN_SESSION_MS {
        StoreWrite::Delete { id }
    } else {
        StoreWrite::Finish {
            id,
            ended_at: wall_ms as i64,
            elapsed_ms: elapsed_ms as i64,
            completed: if completed {
                1
            } else {
                0
            },
        }
    }
}

/// The write that settles session `id` at wall time `wall_ms`.
pub fn finish_write(id: i64, wall_ms: u64, elapsed_ms: u64, completed: bool) -> (w: StoreWrite)
    ensures
        w == finish_write_spec(id, wall_ms, elapsed_ms, completed),
{
    if elapsed_ms < MIN_SESSION_MS {
        StoreWrite::Delete { id }
    } else {
        let flag: i64 = if completed {
            1
        } else {
            0
        };
        StoreWrite::Finish { id, ended_at: wall_ms as i64, elapsed_ms: elapsed_ms as i64, completed: flag }
    }
}

/// The write recovery makes for `step` at wall time `now_wall`: a settled
/// row is settled like any session, an offered one is written back as paused
/// with its recomputed elapsed time and a fresh anchor.
pub open spec fn recovery_write_spec(step: RecoveryStep, now_wall: u64) -> StoreWrite {
    match step {
        RecoveryStep::Settle { id, elapsed_ms, completed } => finish_write_spec(
            id,
            now_wall,
            elapsed_ms,
            completed,
        ),
        RecoveryStep::Resume { session, elapsed_ms, anchor_at } => StoreWrite::WriteBack {
            id: session.id,
            elapsed_ms,
            anchor_at,
        },
    }
}

/// The write recovery makes for `step` at wall time `now_wall`.
pub fn recovery_write(step: &RecoveryStep, now_wall: u64) -> (w: StoreWrite)
    ensures
        w == recovery_write_spec(*step, now_wall),
{
    match step {
        RecoveryStep::Settle { id, elapsed_ms, completed } => finish_write(*id, now_wall, *elapsed_ms, *completed),
        RecoveryStep::Resume { session, elapsed_ms, anchor_at } => StoreWrite::WriteBack {
            id: session.id,
            elapsed_ms: *elapsed_ms,
            anchor_at: *anchor_at,
        },
    }
}

/// Whether `rows` (newest first) have been decided up to, not including, row `i`
/// with a session already offered.
pub open spec fn resume_taken_before(rows: Seq<OpenSessionRow>, now_wall: u64, i: int) -> bool {
    recovery_outcome(rows.take(i), now_wall).resume is Some
}

/// The decision recovery takes for row `i` of `rows`.
pub open spec fn recovery_step_at(rows: Seq<OpenSessionRow>, now_wall: u64, i: int) -> RecoveryStep {
    recovery_step(rows[i], now_wall, resume_taken_before(rows, now_wall, i))
}

/// The writes recovery makes for `rows`, one per row, in order.
pub open spec fn recovery_writes(rows: Seq<OpenSessionRow>, now_wall: u64) -> Seq<StoreWrite> {
    Seq::new(rows.len(), |i: int| recovery_write_spec(recovery_step_at(rows, now_wall, i), now_wall))
}

/// Recovery decided row by row: the outcome, and the decision for each row.
pub fn plan_recovery(rows: &Vec<OpenSessionRow>, now_wall_ms: u64) -> (r: (Recovery, Vec<RecoveryStep>))
    ensures
        r.0 == recovery_outcome(rows@, now_wall_ms),
        r.1@.len() == rows@.len(),
        forall|i: int| 0 <= i < rows@.len() ==> #[trigger] r.1@[i] == recovery_step_at(rows@, now_wall_ms, i),
{
    let mut recovery = Recovery { resume: None, settled: 0 };
    let mut steps: Vec<RecoveryStep> = Vec::new();
    let n = rows.len();
    for i in 0..n
        invariant
            n == rows@.len(),
            steps@.len() == i,
            recovery == recovery_outcome(rows@.take(i as int), now_wall_ms),
            recovery.settled <= i,
            forall|j: int| 0 <= j < i ==> #[trigger] steps@[j] == recovery_step_at(rows@, now_wall_ms, j),
    {
        let step = plan_recovery_step(&rows[i], now_wall_ms, recovery.resume.is_some());
        proof {
            let next = rows@.take(i + 1);
            assert(next.drop_last() =~= rows@.take(i as int));
            assert(next.last() == rows@[i as int]);
        }
        match step {
            RecoveryStep::Settle { .. } => {
                recovery.settled = recovery.settled + 1;
            },
            RecoveryStep::Resume { session, .. } => {
                recovery.resume = Some(session);
            },
        }
        steps.push(step);
    }
    proof {
        assert(rows@.take(n as int) =~= rows@);
    }
    (recovery, steps)
}

/// A session offered at `now1` is written back paused with its recomputed
/// elapsed time anchored at `now1`; read back at a later start-up within the
/// resume gap, that row is offered again with the same elapsed time (recovery
/// is idempotent across restarts).
pub proof fn law_recovery_write_back_is_idempotent(row: OpenSessionRow, now1: u64, now2: u64)
    requires
        recovery_step(row, now1, false) is Resume,
        !row.expired(now2 as i64),
    ensures
        recovery_write_spec(recovery_step(row, now1, false), now1) == (StoreWrite::WriteBack {
            id: row.id,
            elapsed_ms: row.capped_elapsed(now1 as i64),
            anchor_at: now1 as i64,
        }),
        ({
            let written = OpenSessionRow {
                state: SessionState::Paused,
                elapsed_ms: row.capped_elapsed(now1 as i64),
                anchor_at: now1 as i64,
                ..row
            };
            &&& recovery_step(written, now2, false) is Resume
            &&& recovery_step(written, now2, false)->Resume_session.elapsed_ms
                == recovery_step(row, now1, false)->Resume_session.elapsed_ms
        }),
{
    law_recovery_idempotent(row, now1, now2);
}

/// `row` as recovery writes it back when offering it at `now_wall`: paused,
/// with its recomputed elapsed time and the recovery time as anchor.
pub open spec fn written_back(row: OpenSessionRow, now_wall: u64) -> OpenSessionRow {
    OpenSessionRow {
        state: SessionState::Paused,
        elapsed_ms: row.capped_elapsed(now_wall as i64),
        anchor_at: now_wall as i64,
        ..row
    }
}

/// The unsettled rows that recovery of `rows` (newest first) at `now_wall`
/// leaves behind once its writes are applied: settled rows are no longer
/// unsettled, and the offered row is the one written back.
pub open spec fn open_after_recovery(rows: Seq<OpenSessionRow>, now_wall: u64) -> Seq<OpenSessionRow>
    decreases rows.len(),
{
    if rows.len() == 0 {
        Seq::empty()
    } else {
        let prev = open_after_recovery(rows.drop_last(), now_wall);
        match recovery_step(
            rows.last(),
            now_wall,
            recovery_outcome(rows.drop_last(), now_wall).resume is Some,
        ) {
            RecoveryStep::Settle { .. } => prev,
            RecoveryStep::Resume { .. } => prev.push(written_back(rows.last(), now_wall)),
        }
    }
}

/// What recovery leaves unsettled: nothing when nothing was offered, else
/// exactly the offered row written back.
proof fn lemma_open_after_recovery(rows: Seq<OpenSessionRow>, now_wall: u64)
    ensures
        recovery_outcome(rows, now_wall).resume is None ==> open_after_recovery(rows, now_wall)
            == Seq::<OpenSessionRow>::empty(),
        recovery_outcome(rows, now_wall).resume matches Some(s) ==> exists|row: OpenSessionRow|
            #[trigger] recovery_step(row, now_wall, false) == (RecoveryStep::Resume {
                session: s,
                elapsed_ms: row.capped_elapsed(now_wall as i64),
                anchor_at: now_wall as i64,
            }) && open_after_recovery(rows, now_wall) == seq![written_back(row, now_wall)],
    decreases rows.len(),
{
    if rows.len() > 0 {
        lemma_open_after_recovery(rows.drop_last(), now_wall);
        let prev = recovery_outcome(rows.drop_last(), now_wall);
        let step = recovery_step(rows.last(), now_wall, prev.resume is Some);
        if step is Resume {
            assert(prev.resume is None);
            assert(recovery_step(rows.last(), now_wall, false) == step);
            assert(open_after_recovery(rows, now_wall) =~= seq![written_back(rows.last(), now_wall)]);
        }
    }
}

/// Start-up recovery is idempotent across restarts.  After a recovery at
/// `now1` whose writes were applied, a later recovery at `now2` (while the
/// offered session is still within the resume gap) settles nothing, offers
/// the same session with the same elapsed time however long the app stayed
/// closed, and writes it back again with that same elapsed time; when the
/// first recovery offered nothing, the second finds nothing to do.
pub proof fn law_recovery_idempotent_across_restarts(rows: Seq<OpenSessionRow>, now1: u64, now2: u64)
    requires
        recovery_outcome(rows, now1).resume matches Some(s) ==> clamp_i64(now2 - s.started_at)
            <= MAX_RESUME_GAP_MS,
    ensures
        ({
            let first = recovery_outcome(rows, now1);
            let after = open_after_recovery(rows, now1);
            let second = recovery_outcome(after, now2);
            &&& second.settled == 0
            &&& (second.resume is Some <==> first.resume is Some)
            &&& (first.resume matches Some(s1) ==> second.resume matches Some(s2) && s2.id == s1.id
                && s2.elapsed_ms == s1.elapsed_ms && s2.started_at == s1.started_at)
            &&& (first.resume is None ==> recovery_writes(after, now2).len() == 0)
            &&& (first.resume is Some ==> recovery_writes(after, now2) == seq![
                StoreWrite::WriteBack {
                    id: first.resume->0.id,
                    elapsed_ms: after[0].elapsed_ms,
                    anchor_at: now2 as i64,
                },
            ])
        }),
{
    lemma_open_after_recovery(rows, now1);
    let first = recovery_outcome(rows, now1);
    let after = open_after_recovery(rows, now1);
    if first.resume is Some {
        let s = first.resume->0;
        let row = choose|row: OpenSessionRow|
            #[trigger] recovery_step(row, now1, false) == (RecoveryStep::Resume {
                session: s,
                elapsed_ms: row.capped_elapsed(now1 as i64),
                anchor_at: now1 as i64,
            }) && after == seq![written_back(row, now1)];
        assert(row.started_at == s.started_at);
        law_recovery_idempotent(row, now1, now2);
        let w = written_back(row, now1);
        assert(after.drop_last() =~= Seq::<OpenSessionRow>::empty());
        assert(after.last() == w);
        assert(after.take(0) =~= Seq::<OpenSessionRow>::empty());
        assert(recovery_step_at(after, now2, 0) == recovery_step(w, now2, false));
        assert(recovery_writes(after, now2) =~= seq![
            StoreWrite::WriteBack { id: s.id, elapsed_ms: w.elapsed_ms, anchor_at: now2 as i64 },
        ]);
    } else {
        assert(recovery_writes(after, now2) =~= Seq::<StoreWrite>::empty());
    }
}

/// A session shorter than the minimum is deleted, never saved; a longer one
/// is saved finished with the values given.
pub proof fn law_short_sessions_are_never_stored(id: i64, wall_ms: u64, elapsed_ms: u64, completed: bool)
    ensures
        finish_write_spec(id, wall_ms, elapsed_ms, completed) is Delete <==> elapsed_ms < MIN_SESSION_MS,
        !(finish_write_spec(id, wall_ms, elapsed_ms, completed) is Finish) <==> elapsed_ms < MIN_SESSION_MS,
{
}

// ---------------------------------------------------------------------------
// The store.
// ---------------------------------------------------------------------------

/// An unsettled row as the recovery query returns it: kind and state as
/// stored text.
pub struct RawOpenRow {
    pub id: i64,
    pub kind: String,
    pub state: String,
    pub started_at: i64,
    pub anchor_at: i64,
    pub elapsed_ms: i64,
    pub limit_ms: Option<i64>,
}

/// Whether stored kind and state texts are ones this program writes.
pub open spec fn row_text_parses(kind: String, state: String) -> bool {
    kind_from_text(kind@) is Some && state_from_text(state@) is Some
}

/// Whether `e` reports the stored kind and state texts: an unknown kind
/// first, else an unknown state.
pub open spec fn is_parse_error(e: StoreError, kind: String, state: String) -> bool {
    if kind_from_text(kind@) is None {
        e matches StoreError::UnknownKind(t) && t@ == kind@
    } else {
        state_from_text(state@) is None && (e matches StoreError::UnknownState(t) && t@ == state@)
    }
}

/// An unsettled row read back, with its kind and state parsed.
pub open spec fn open_row_of(raw: RawOpenRow) -> OpenSessionRow {
    OpenSessionRow {
        id: raw.id,
        kind: kind_from_text(raw.kind@)->0,
        state: state_from_text(raw.state@)->0,
        started_at: raw.started_at,
        anchor_at: raw.anchor_at,
        elapsed_ms: raw.elapsed_ms,
        limit_ms: raw.limit_ms,
    }
}

/// Whether `rows` are the rows of `raws` parsed up to, not including, the
/// first one whose kind or state is unknown.
pub open spec fn is_parsed_prefix(rows: Seq<OpenSessionRow>, raws: Seq<RawOpenRow>) -> bool {
    &&& rows.len() <= raws.len()
    &&& forall|i: int|
        0 <= i < rows.len() ==> row_text_parses(raws[i].kind, raws[i].state) && #[trigger] rows[i]
            == open_row_of(raws[i])
    &&& rows.len() < raws.len() ==> !row_text_parses(raws[rows.len() as int].kind, raws[rows.len() as int].state)
}

/// A row of the session table as the database returns it: kind and state
/// as stored text, the completed flag as the stored integer.
pub struct RawSessionRow {
    pub id: i64,
    pub kind: String,
    pub tag: Option<String>,
    pub state: String,
    pub started_at: i64,
    pub anchor_at: i64,
    pub ended_at: Option<i64>,
    pub elapsed_ms: i64,
    pub limit_ms: Option<i64>,
    pub completed: i64,
    pub note: Option<String>,
}

/// Whether `row` is `raw` with kind and state parsed, every other field
/// copied, and the completed flag read as "not zero".
pub open spec fn is_session_row_of(row: SessionRow, raw: RawSessionRow) -> bool {
    &&& row.kind == kind_from_text(raw.kind@)->0
    &&& row.state == state_from_text(raw.state@)->0
    &&& row.id == raw.id
    &&& opt_text(row.tag) == opt_text(raw.tag)
    &&& row.started_at == raw.started_at
    &&& row.anchor_at == raw.anchor_at
    &&& row.ended_at == raw.ended_at
    &&& row.elapsed_ms == raw.elapsed_ms
    &&& row.limit_ms == raw.limit_ms
    &&& row.completed == (raw.completed != 0)
    &&& opt_text(row.note) == opt_text(raw.note)
}

/// A stored row as a [`SessionRow`]: every field copied, kind and state
/// parsed (an unknown kind is reported before an unknown state), and any
/// non-zero completed flag read as completed.
pub fn session_row_from_raw(raw: &RawSessionRow) -> (r: Result<SessionRow, StoreError>)
    ensures
        r is Ok <==> row_text_parses(raw.kind, raw.state),
        r matches Ok(row) ==> is_session_row_of(row, *raw),
        r matches Err(e) ==> is_parse_error(e, raw.kind, raw.state),
{
    let kind = parse_kind(raw.kind.clone())?;
    let state = parse_state(raw.state.clone())?;
    let tag = match &raw.tag {
        Some(t) => Some(t.clone()),
        None => None,
    };
    let note = match &raw.note {
        Some(t) => Some(t.clone()),
        None => None,
    };
    Ok(
        SessionRow {
            id: raw.id,
            kind,
            tag,
            state,
            started_at: raw.started_at,
            anchor_at: raw.anchor_at,
            ended_at: raw.ended_at,
            elapsed_ms: raw.elapsed_ms,
            limit_ms: raw.limit_ms,
            completed: raw.completed != 0,
            note,
        },
    )
}

/// A database sum, with the empty sum (`NULL`) as zero.
pub open spec fn sum_or_zero(sum: Option<i64>) -> i64 {
    match sum {
        Some(v) => v,
        None => 0,
    }
}

/// One query handed to the database, with its parameters and what the
/// database answered (`None`: it failed while answering).
pub enum StoreRead {
    /// The unsettled (running or paused) sessions, newest first.
    OpenSessions { answer: Option<Seq<RawOpenRow>> },
    /// The settled sessions, in start order.
    FinishedSessions { answer: Option<Seq<RawSessionRow>> },
    /// Per local day in `from_day..=to_day`: total, count, completed count.
    DailyStats { from_day: Seq<char>, to_day: Seq<char>, answer: Option<Seq<DailyStat>> },
    /// The sum of the settled sessions' time (`None` inside: no session).
    Total { answer: Option<Option<i64>> },
    /// How many sessions are settled.
    FinishedCount { answer: Option<i64> },
    /// The value of the setting `key` (`None` inside: never written).
    Setting { key: Seq<char>, answer: Option<Option<Seq<char>>> },
    /// Per tag, over sessions started on `from_day..=to_day`.
    TagTotals { from_day: Seq<char>, to_day: Seq<char>, answer: Option<Seq<TagTotal>> },
    /// Per day and tag, over sessions started on `from_day..=to_day`.
    TagDayTotals { from_day: Seq<char>, to_day: Seq<char>, answer: Option<Seq<TagDayTotal>> },
    /// Per local start hour (as stored integers: hour, total, count).
    HourTotals { from_day: Seq<char>, to_day: Seq<char>, answer: Option<Seq<(i64, i64, i64)>> },
}

/// What a query that produced `r` answered.
pub open spec fn answer_of<T>(r: Result<Vec<T>, StoreError>) -> Option<Seq<T>> {
    match r {
        Ok(v) => Some(v@),
        Err(_) => None,
    }
}

/// Whether `r` is what the settled-sessions listing returns for `read`:
/// every row converted, in order, or the first conversion error.
pub open spec fn finished_answered(read: StoreRead, r: Result<Vec<SessionRow>, StoreError>) -> bool {
    match read {
        StoreRead::FinishedSessions { answer } => match answer {
            None => r is Err,
            Some(raws) => {
                &&& (r is Ok <==> forall|i: int|
                    0 <= i < raws.len() ==> #[trigger] row_text_parses(raws[i].kind, raws[i].state))
                &&& (r matches Ok(rows) ==> rows@.len() == raws.len() && forall|i: int|
                    0 <= i < raws.len() ==> #[trigger] is_session_row_of(rows@[i], raws[i]))
                &&& (r matches Err(e) ==> exists|j: int|
                    0 <= j < raws.len() && #[trigger] is_parse_error(e, raws[j].kind, raws[j].state)
                        && forall|i: int| 0 <= i < j ==> row_text_parses(raws[i].kind, raws[i].state))
            },
        },
        _ => false,
    }
}

/// Whether `r` is what the hour totals return for `read`: the stored hour
/// as `u32`, total and count of each row, in order.
pub open spec fn hours_answered(read: StoreRead, from_day: Seq<char>, to_day: Seq<char>, r: Result<Vec<HourTotal>, StoreError>) -> bool {
    match read {
        StoreRead::HourTotals { from_day: f, to_day: t, answer } => f == from_day && t == to_day
            && match answer {
            None => r is Err,
            Some(raws) => r matches Ok(v) && v@.len() == raws.len() && forall|i: int|
                0 <= i < raws.len() ==> (#[trigger] v@[i]).hour == raws[i].0 as u32 && v@[i].total_ms
                    == raws[i].1 && v@[i].session_count == raws[i].2,
        },
        _ => false,
    }
}

/// Whether the recovery that read `read` at `now_wall` returned `r` and
/// turned the writes `before` into `after`: the rows read are parsed up to
/// the first unknown kind or state, the parsed rows are decided and written
/// as `recovery_outcome` and `recovery_writes` say, a failed write stops the
/// writes, and a row that does not parse makes the result its error once the
/// rows before it are handled.
pub open spec fn recovery_answered(
    before: Seq<StoreWrite>,
    after: Seq<StoreWrite>,
    read: StoreRead,
    now_wall: u64,
    r: Result<Recovery, StoreError>,
) -> bool {
    &&& read is OpenSessions
    &&& (read->OpenSessions_answer is None ==> r is Err && after == before)
    &&& (read->OpenSessions_answer is Some ==> exists|rows: Seq<OpenSessionRow>|
        #[trigger] is_parsed_prefix(rows, read->OpenSessions_answer->0) && recovery_of_rows(
            before,
            after,
            read->OpenSessions_answer->0,
            rows,
            now_wall,
            r,
        ))
}

/// A recovery that handled the parsed rows of what it read as
/// [`recovery_of_rows`] says is answered as [`recovery_answered`] says.
proof fn lemma_recovery_answered(
    before: Seq<StoreWrite>,
    after: Seq<StoreWrite>,
    raws: Seq<RawOpenRow>,
    rows: Seq<OpenSessionRow>,
    now_wall: u64,
    r: Result<Recovery, StoreError>,
)
    requires
        is_parsed_prefix(rows, raws),
        recovery_of_rows(before, after, raws, rows, now_wall, r),
    ensures
        recovery_answered(before, after, StoreRead::OpenSessions { answer: Some(raws) }, now_wall, r),
{
    let read = StoreRead::OpenSessions { answer: Some(raws) };
    assert(read->OpenSessions_answer->0 == raws);
    assert(exists|rs: Seq<OpenSessionRow>|
        #[trigger] is_parsed_prefix(rs, read->OpenSessions_answer->0) && recovery_of_rows(
            before,
            after,
            read->OpenSessions_answer->0,
            rs,
            now_wall,
            r,
        ));
}

/// See [`recovery_answered`], for the parsed `rows` of `raws`.
pub open spec fn recovery_of_rows(
    before: Seq<StoreWrite>,
    after: Seq<StoreWrite>,
    raws: Seq<RawOpenRow>,
    rows: Seq<OpenSessionRow>,
    now_wall: u64,
    r: Result<Recovery, StoreError>,
) -> bool {
    let planned = recovery_writes(rows, now_wall);
    &&& (r matches Ok(rec) ==> rows.len() == raws.len() && rec == recovery_outcome(rows, now_wall)
        && after == before + planned)
    &&& (r is Err ==> exists|k: int| 0 <= k <= planned.len() && after == before + planned.take(k))
    &&& (rows.len() < raws.len() ==> r is Err)
    &&& (r is Err && !(r->Err_0 is Db) ==> rows.len() < raws.len() && after == before + planned
        && is_parse_error(r->Err_0, raws[rows.len() as int].kind, raws[rows.len() as int].state))
}

/// The total of the settled sessions from the database's sum, which is
/// empty (`NULL`) when no session is settled.
pub fn total_or_zero(sum: Option<i64>) -> (t: i64)
    ensures
        t == sum_or_zero(sum),
{
    match sum {
        Some(v) => v,
        None => 0,
    }
}

/// The rows of the recovery query up to the first one whose kind or state
/// does not parse, with that row's error.
fn parse_open_rows(raw_rows: &Vec<RawOpenRow>) -> (r: (Vec<OpenSessionRow>, Option<StoreError>))
    ensures
        is_parsed_prefix(r.0@, raw_rows@),
        r.1 is None <==> r.0@.len() == raw_rows@.len(),
        r.1 matches Some(e) ==> is_parse_error(
            e,
            raw_rows@[r.0@.len() as int].kind,
            raw_rows@[r.0@.len() as int].state,
        ),
{
    let mut rows: Vec<OpenSessionRow> = Vec::new();
    let n = raw_rows.len();
    let mut i: usize = 0;
    while i < n
        invariant
            n == raw_rows.len(),
            i <= n,
            rows@.len() == i,
            forall|j: int|
                0 <= j < i ==> row_text_parses(raw_rows@[j].kind, raw_rows@[j].state) && #[trigger] rows@[j]
                    == open_row_of(raw_rows@[j]),
        decreases n - i,
    {
        let raw = &raw_rows[i];
        let kind = match parse_kind(raw.kind.clone()) {
            Ok(k) => k,
            Err(e) => return (rows, Some(e)),
        };
        let state = match parse_state(raw.state.clone()) {
            Ok(st) => st,
            Err(e) => return (rows, Some(e)),
        };
        rows.push(
            OpenSessionRow {
                id: raw.id,
                kind,
                state,
                started_at: raw.started_at,
                anchor_at: raw.anchor_at,
                elapsed_ms: raw.elapsed_ms,
                limit_ms: raw.limit_ms,
            },
        );
        i = i + 1;
    }
    (rows, None)
}

/// A handle on the SQLite database.
pub struct Store {
    conn: rusqlite::Connection,
    /// The writes handed to the database through this handle, in order.
    writes: Ghost<Seq<StoreWrite>>,
    /// The queries handed to the database through this handle, in order,
    /// with what it answered.
    reads: Ghost<Seq<StoreRead>>,
    /// The calls handed to the SQLite driver through this handle, in order.
    calls: Ghost<Seq<SqlCall>>,
}

impl Store {
    /// The connection this store works on.
    pub closed spec fn conn_of(&self) -> rusqlite::Connection {
        self.conn
    }

    /// The writes handed to the database through this handle, in order
    /// (each one whether or not the database accepted it).
    pub closed spec fn writes(&self) -> Seq<StoreWrite> {
        self.writes@
    }

    /// The queries handed to the database through this handle, in order,
    /// with what it answered.
    pub closed spec fn reads(&self) -> Seq<StoreRead> {
        self.reads@
    }

    /// The calls handed to the SQLite driver through this handle, in order.
    pub closed spec fn calls(&self) -> Seq<SqlCall> {
        self.calls@
    }

    /// Hands one write to the database; returns how many rows it changed.
    fn perform(&mut self, w: StoreWrite) -> (r: Result<usize, StoreError>)
        ensures
            final(self).writes() == old(self).writes().push(w),
            final(self).reads() == old(self).reads(),
            final(self).conn_of() == old(self).conn_of(),
            r matches Err(e) ==> e is Db,
            !(w is Migrate) ==> final(self).calls() == old(self).calls() + write_calls(w),
            w is Migrate && r is Ok ==> final(self).calls() == old(self).calls() + write_calls(w),
            w is Migrate && r is Err ==> final(self).calls() == old(self).calls() + write_calls(w)
                || final(self).calls() == old(self).calls() + write_calls(w).take(2),
    {
        self.writes = Ghost(self.writes@.push(w));
        if let StoreWrite::Migrate = w {
            let ghost c0 = self.calls@;
            self.calls = Ghost(self.calls@.push(SqlCall::Pragma { name: "journal_mode"@, value: "WAL"@ }));
            let _ = db::pragma_update(&self.conn, "journal_mode", "WAL");
            self.calls = Ghost(self.calls@.push(SqlCall::Pragma { name: "foreign_keys"@, value: "ON"@ }));
            if let Err(e) = db::pragma_update(&self.conn, "foreign_keys", "ON") {
                assert(self.calls@ =~= c0 + write_calls(w).take(2));
                return Err(StoreError::Db(e));
            }
            self.calls = Ghost(self.calls@.push(SqlCall::Batch { sql: SCHEMA@ }));
            assert(self.calls@ =~= c0 + write_calls(w));
            return match db::execute_batch(&self.conn, SCHEMA) {
                Ok(()) => Ok(0),
                Err(e) => Err(StoreError::Db(e)),
            };
        }
        let (sql, params) = statement_of(&w);
        self.calls = Ghost(self.calls@.push(SqlCall::Execute { sql: sql@, args: args_of(params@) }));
        assert(seq![SqlCall::Execute { sql: sql@, args: args_of(params@) }] =~= write_calls(w));
        db_result(db::execute(&self.conn, sql, &params))
    }

    /// One attempt to open (or create) the database file at `path`, set the
    /// lock wait and apply the schema.
    pub fn open_once(path: &str) -> (r: Result<Self, StoreError>)
        ensures
            r matches Ok(s) ==> s.writes() == seq![StoreWrite::Migrate] && s.reads() == Seq::<
                StoreRead,
            >::empty() && s.calls() == write_calls(StoreWrite::Migrate),
    {
        let conn = db_result(db::open_file(path))?;
        Self::from_conn(conn)
    }

    /// A fresh in-memory database with the schema applied.
    pub fn open_in_memory() -> (r: Result<Self, StoreError>)
        ensures
            r matches Ok(s) ==> s.writes() == seq![StoreWrite::Migrate] && s.reads() == Seq::<
                StoreRead,
            >::empty() && s.calls() == write_calls(StoreWrite::Migrate),
    {
        let conn = db_result(db::open_memory())?;
        Self::from_conn(conn)
    }

    fn from_conn(conn: rusqlite::Connection) -> (r: Result<Self, StoreError>)
        ensures
            r matches Ok(s) ==> s.conn_of() == conn && s.writes() == seq![StoreWrite::Migrate]
                && s.reads() == Seq::<StoreRead>::empty() && s.calls() == write_calls(StoreWrite::Migrate),
    {
        db_result(db::set_busy_timeout(&conn, BUSY_TIMEOUT_MS))?;
        let mut store = Store {
            conn,
            writes: Ghost(Seq::empty()),
            reads: Ghost(Seq::empty()),
            calls: Ghost(Seq::empty()),
        };
        store.migrate()?;
        assert(store.writes() =~= seq![StoreWrite::Migrate]);
        assert(store.calls() =~= write_calls(StoreWrite::Migrate));
        Ok(store)
    }

    /// Switches to WAL (best effort), enables foreign keys and creates the
    /// schema; safe to run again.
    pub fn migrate(&mut self) -> (r: Result<(), StoreError>)
        ensures
            final(self).writes() == old(self).writes().push(StoreWrite::Migrate),
            final(self).reads() == old(self).reads(),
            final(self).conn_of() == old(self).conn_of(),
            r is Ok ==> final(self).calls() == old(self).calls() + write_calls(StoreWrite::Migrate),
            r is Err ==> final(self).calls() == old(self).calls() + write_calls(StoreWrite::Migrate)
                || final(self).calls() == old(self).calls() + write_calls(StoreWrite::Migrate).take(2),
    {
        self.perform(StoreWrite::Migrate)?;
        Ok(())
    }

    /// Starts a running session at wall time `wall_ms` and returns its id.
    pub fn begin_session(
        &mut self,
        kind: SessionKind,
        tag: Option<&str>,
        wall_ms: u64,
        limit_ms: Option<u64>,
    ) -> (r: Result<i64, StoreError>)
        ensures
            final(self).writes().len() == old(self).writes().len() + 1,
            final(self).writes().drop_last() == old(self).writes(),
            is_begin_write(
                final(self).writes().last(),
                kind,
                opt_str_text(tag),
                wall_ms as i64,
                opt_as_i64(limit_ms),
            ),
            final(self).conn_of() == old(self).conn_of(),
            final(self).reads() == old(self).reads(),
            final(self).calls() == old(self).calls() + write_calls(final(self).writes().last()),
    {
        let limit = match limit_ms {
            Some(v) => Some(v as i64),
            None => None,
        };
        let owned_tag = match tag {
            Some(t) => Some(String::from_str(t)),
            None => None,
        };
        let w = StoreWrite::Begin { kind, tag: owned_tag, started_at: wall_ms as i64, limit_ms: limit };
        self.perform(w)?;
        Ok(db::last_insert_rowid(&self.conn))
    }

    /// Pauses a running session: its accumulated time becomes `elapsed_ms`
    /// and its anchor the pause time.
    pub fn pause_session(&mut self, id: i64, wall_ms: u64, elapsed_ms: u64) -> (r: Result<(), StoreError>)
        ensures
            final(self).writes() == old(self).writes().push(
                StoreWrite::Pause { id, elapsed_ms: elapsed_ms as i64, anchor_at: wall_ms as i64 },
            ),
            final(self).conn_of() == old(self).conn_of(),
            final(self).reads() == old(self).reads(),
            final(self).calls() == old(self).calls() + write_calls(final(self).writes().last()),
    {
        self.perform(StoreWrite::Pause { id, elapsed_ms: elapsed_ms as i64, anchor_at: wall_ms as i64 })?;
        Ok(())
    }

    /// Continues an unsettled session: a new anchor, and the time accumulated
    /// so far written back with it.
    pub fn resume_session(&mut self, id: i64, wall_ms: u64, elapsed_ms: u64) -> (r: Result<(), StoreError>)
        ensures
            final(self).writes() == old(self).writes().push(
                StoreWrite::Resume { id, anchor_at: wall_ms as i64, elapsed_ms: elapsed_ms as i64 },
            ),
            final(self).conn_of() == old(self).conn_of(),
            final(self).reads() == old(self).reads(),
            final(self).calls() == old(self).calls() + write_calls(final(self).writes().last()),
    {
        self.perform(StoreWrite::Resume { id, anchor_at: wall_ms as i64, elapsed_ms: elapsed_ms as i64 })?;
        Ok(())
    }

    /// Settles a session: too short ones are deleted, others saved as finished.
    pub fn finish_session(&mut self, id: i64, wall_ms: u64, elapsed_ms: u64, completed: bool) -> (r:
        Result<FinishOutcome, StoreError>)
        ensures
            final(self).writes() == old(self).writes().push(
                finish_write_spec(id, wall_ms, elapsed_ms, completed),
            ),
            final(self).conn_of() == old(self).conn_of(),
            final(self).reads() == old(self).reads(),
            final(self).calls() == old(self).calls() + write_calls(final(self).writes().last()),
            r matches Ok(o) ==> (o == FinishOutcome::Discarded <==> elapsed_ms < MIN_SESSION_MS),
    {
        let w = finish_write(id, wall_ms, elapsed_ms, completed);
        self.perform(w)?;
        if elapsed_ms < MIN_SESSION_MS {
            Ok(FinishOutcome::Discarded)
        } else {
            Ok(FinishOutcome::Saved)
        }
    }

    /// Reads the unsettled sessions, newest first, and records the query.
    fn read_open_rows(&mut self) -> (r: Result<Vec<RawOpenRow>, StoreError>)
        ensures
            final(self).reads() == old(self).reads().push(StoreRead::OpenSessions { answer: answer_of(r) }),
            final(self).writes() == old(self).writes(),
            final(self).conn_of() == old(self).conn_of(),
            final(self).calls() == old(self).calls().push(query_call(OPEN_ROWS_SQL@, Seq::empty())),
    {
        let params: Vec<SqlValue> = Vec::new();
        self.calls = Ghost(self.calls@.push(query_call(OPEN_ROWS_SQL@, args_of(params@))));
        assert(args_of(params@) =~= Seq::<SqlArg>::empty());
        let r = self.query_open_rows(OPEN_ROWS_SQL, &params);
        self.reads = Ghost(self.reads@.push(StoreRead::OpenSessions { answer: answer_of(r) }));
        r
    }

    fn query_open_rows(&self, sql: &str, params: &Vec<SqlValue>) -> (r: Result<Vec<RawOpenRow>, StoreError>) {
        let mut stmt = db_result(
            db::prepare(&self.conn, sql),
        )?;
        let mut rows = db_result(db::query(&mut stmt, params))?;
        let mut out: Vec<RawOpenRow> = Vec::new();
        while out.len() < usize::MAX
            decreases usize::MAX - out.len(),
        {
            let row = match db_result(db::next_row(&mut rows))? {
                Some(row) => row,
                None => break,
            };
            let raw = RawOpenRow {
                id: db_result(db::get_i64(row, 0))?,
                kind: db_result(db::get_text(row, 1))?,
                state: db_result(db::get_text(row, 2))?,
                started_at: db_result(db::get_i64(row, 3))?,
                anchor_at: db_result(db::get_i64(row, 4))?,
                elapsed_ms: db_result(db::get_i64(row, 5))?,
                limit_ms: db_result(db::get_opt_i64(row, 6))?,
            };
            out.push(raw);
        }
        Ok(out)
    }

    /// Start-up recovery at wall time `now_wall_ms`: every unsettled session
    /// (newest first) is either settled or, for the newest eligible one,
    /// written back as paused with its recomputed elapsed time and offered for
    /// continuation.  A stored kind or state this program never writes stops
    /// recovery with an error (the rows before it are already handled).
    ///
    /// For the rows the database returned, the outcome is their
    /// `recovery_outcome` and the writes are one per row, in order, as
    /// `recovery_writes` says; a failure stops after a prefix of them.
    pub fn recover_on_start(&mut self, now_wall_ms: u64) -> (r: Result<Recovery, StoreError>)
        ensures
            final(self).conn_of() == old(self).conn_of(),
            final(self).reads().len() == old(self).reads().len() + 1,
            final(self).reads().drop_last() == old(self).reads(),
            recovery_answered(
                old(self).writes(),
                final(self).writes(),
                final(self).reads().last(),
                now_wall_ms,
                r,
            ),
            final(self).calls() == old(self).calls().push(query_call(OPEN_ROWS_SQL@, Seq::empty()))
                + calls_of_writes(
                final(self).writes().subrange(old(self).writes().len() as int, final(self).writes().len() as int),
            ),
    {
        let ghost start = self.writes();
        let ghost reads0 = self.reads();
        let ghost calls0 = self.calls();
        let raw_rows = match self.read_open_rows() {
            Ok(raw_rows) => raw_rows,
            Err(e) => {
                assert(self.reads().drop_last() =~= reads0);
                assert(self.writes().subrange(start.len() as int, self.writes().len() as int) =~= Seq::<StoreWrite>::empty());
                assert(self.calls() =~= calls0.push(query_call(OPEN_ROWS_SQL@, Seq::empty())) + calls_of_writes(Seq::<StoreWrite>::empty()));
                return Err(e);
            },
        };
        let ghost calls1 = self.calls();
        let ghost read = self.reads().last();
        assert(self.reads().drop_last() =~= reads0);
        let (rows, parse_error) = parse_open_rows(&raw_rows);
        let (recovery, steps) = plan_recovery(&rows, now_wall_ms);
        let ghost planned = recovery_writes(rows@, now_wall_ms);
        let n = steps.len();
        for i in 0..n
            invariant
                n == rows@.len(),
                steps@.len() == n,
                forall|j: int| 0 <= j < n ==> #[trigger] steps@[j] == recovery_step_at(rows@, now_wall_ms, j),
                planned == recovery_writes(rows@, now_wall_ms),
                self.writes() == start + planned.take(i as int),
                self.conn_of() == old(self).conn_of(),
                start == old(self).writes(),
                calls1 == old(self).calls().push(query_call(OPEN_ROWS_SQL@, Seq::empty())),
                self.calls() == calls1 + calls_of_writes(planned.take(i as int)),
                self.writes().subrange(start.len() as int, self.writes().len() as int) == planned.take(i as int),
                reads0 == old(self).reads(),
                self.reads().drop_last() == reads0,
                self.reads().len() == reads0.len() + 1,
                self.reads().last() == read,
                read == (StoreRead::OpenSessions { answer: Some(raw_rows@) }),
                is_parsed_prefix(rows@, raw_rows@),
                recovery == recovery_outcome(rows@, now_wall_ms),
                parse_error is None <==> rows@.len() == raw_rows@.len(),
                parse_error matches Some(e) ==> is_parse_error(
                    e,
                    raw_rows@[rows@.len() as int].kind,
                    raw_rows@[rows@.len() as int].state,
                ),
        {
            let w = recovery_write(&steps[i], now_wall_ms);
            assert(w == planned[i as int]);
            let ghost calls_before = self.calls();
            let done = self.perform(w);
            assert(planned.take(i + 1) =~= planned.take(i as int).push(w));
            assert(self.writes() == start + planned.take(i + 1));
            assert(planned.take(i + 1).drop_last() =~= planned.take(i as int));
            assert(self.calls() =~= calls1 + calls_of_writes(planned.take(i + 1)));
            assert(self.writes().subrange(start.len() as int, self.writes().len() as int) =~= planned.take(i + 1));
            if let Err(e) = done {
                proof {
                    lemma_recovery_answered(start, self.writes(), raw_rows@, rows@, now_wall_ms, Err(e));
                }
                return Err(e);
            }
        }
        assert(planned.take(n as int) =~= planned);
        let r = match parse_error {
            Some(e) => Err(e),
            None => Ok(recovery),
        };
        proof {
            lemma_recovery_answered(start, self.writes(), raw_rows@, rows@, now_wall_ms, r);
        }
        r
    }

    /// Per local day (`YYYY-MM-DD`, both ends included): total settled time,
    /// session count and completed count, in day order.
    pub fn daily_stats(&mut self, from_day: &str, to_day: &str) -> (r: Result<Vec<DailyStat>, StoreError>)
        ensures
            final(self).reads() == old(self).reads().push(
                StoreRead::DailyStats { from_day: from_day@, to_day: to_day@, answer: answer_of(r) },
            ),
            final(self).writes() == old(self).writes(),
            final(self).calls() == old(self).calls().push(query_call(DAILY_STATS_SQL@, day_args(from_day@, to_day@))),
            final(self).conn_of() == old(self).conn_of(),
    {
        let params = day_params(from_day, to_day);
        self.calls = Ghost(self.calls@.push(query_call(DAILY_STATS_SQL@, args_of(params@))));
        let r = self.query_daily_stats(DAILY_STATS_SQL, &params);
        self.reads = Ghost(
            self.reads@.push(StoreRead::DailyStats { from_day: from_day@, to_day: to_day@, answer: answer_of(r) }),
        );
        r
    }

    fn query_daily_stats(&self, sql: &str, params: &Vec<SqlValue>) -> (r: Result<Vec<DailyStat>, StoreError>) {
        let mut stmt = db_result(
            db::prepare(&self.conn, sql),
        )?;
        let mut rows = db_result(db::query(&mut stmt, params))?;
        let mut out: Vec<DailyStat> = Vec::new();
        while out.len() < usize::MAX
            decreases usize::MAX - out.len(),
        {
            let row = match db_result(db::next_row(&mut rows))? {
                Some(row) => row,
                None => break,
            };
            let stat = DailyStat {
                day: db_result(db::get_text(row, 0))?,
                total_ms: db_result(db::get_i64(row, 1))?,
                session_count: db_result(db::get_i64(row, 2))?,
                completed_count: db_result(db::get_i64(row, 3))?,
            };
            out.push(stat);
        }
        Ok(out)
    }

    /// Total time of all settled sessions (0 when there are none).
    pub fn total_ms(&mut self) -> (r: Result<i64, StoreError>)
        ensures
            final(self).reads().drop_last() == old(self).reads(),
            final(self).reads().len() == old(self).reads().len() + 1,
            final(self).reads().last() matches StoreRead::Total { answer } && (answer is None <==> r is Err)
                && (r matches Ok(t) ==> t == sum_or_zero(answer->0)),
            final(self).writes() == old(self).writes(),
            final(self).calls() == old(self).calls().push(query_call(TOTAL_SQL@, Seq::empty())),
            final(self).conn_of() == old(self).conn_of(),
    {
        self.calls = Ghost(self.calls@.push(query_call(TOTAL_SQL@, Seq::empty())));
        let sum = db_result(
            db::query_single_opt_i64(&self.conn, TOTAL_SQL),
        );
        let ghost answer = match sum {
            Ok(v) => Some(v),
            Err(_) => None,
        };
        self.reads = Ghost(self.reads@.push(StoreRead::Total { answer }));
        match sum {
            Ok(v) => Ok(total_or_zero(v)),
            Err(e) => Err(e),
        }
    }

    /// Reads the settled sessions in start order, and records the query.
    fn read_finished_rows(&mut self) -> (r: Result<Vec<RawSessionRow>, StoreError>)
        ensures
            final(self).reads() == old(self).reads().push(StoreRead::FinishedSessions { answer: answer_of(r) }),
            final(self).writes() == old(self).writes(),
            final(self).conn_of() == old(self).conn_of(),
            final(self).calls() == old(self).calls().push(query_call(FINISHED_ROWS_SQL@, Seq::empty())),
    {
        let params: Vec<SqlValue> = Vec::new();
        self.calls = Ghost(self.calls@.push(query_call(FINISHED_ROWS_SQL@, args_of(params@))));
        assert(args_of(params@) =~= Seq::<SqlArg>::empty());
        let r = self.query_finished_rows(FINISHED_ROWS_SQL, &params);
        self.reads = Ghost(self.reads@.push(StoreRead::FinishedSessions { answer: answer_of(r) }));
        r
    }

    fn query_finished_rows(&self, sql: &str, params: &Vec<SqlValue>) -> (r: Result<Vec<RawSessionRow>, StoreError>) {
        let mut stmt = db_result(
            db::prepare(&self.conn, sql),
        )?;
        let mut rows = db_result(db::query(&mut stmt, params))?;
        let mut out: Vec<RawSessionRow> = Vec::new();
        while out.len() < usize::MAX
            decreases usize::MAX - out.len(),
        {
            let row = match db_result(db::next_row(&mut rows))? {
                Some(row) => row,
                None => break,
            };
            let raw = RawSessionRow {
                id: db_result(db::get_i64(row, 0))?,
                kind: db_result(db::get_text(row, 1))?,
                tag: db_result(db::get_opt_text(row, 2))?,
                state: db_result(db::get_text(row, 3))?,
                started_at: db_result(db::get_i64(row, 4))?,
                anchor_at: db_result(db::get_i64(row, 5))?,
                ended_at: db_result(db::get_opt_i64(row, 6))?,
                elapsed_ms: db_result(db::get_i64(row, 7))?,
                limit_ms: db_result(db::get_opt_i64(row, 8))?,
                completed: db_result(db::get_i64(row, 9))?,
                note: db_result(db::get_opt_text(row, 10))?,
            };
            out.push(raw);
        }
        Ok(out)
    }

    /// Every settled session in start order, for CSV export.  A stored kind
    /// or state this program never writes is an error.
    pub fn finished_sessions(&mut self) -> (r: Result<Vec<SessionRow>, StoreError>)
        ensures
            final(self).reads().drop_last() == old(self).reads(),
            final(self).reads().len() == old(self).reads().len() + 1,
            finished_answered(final(self).reads().last(), r),
            final(self).writes() == old(self).writes(),
            final(self).calls() == old(self).calls().push(query_call(FINISHED_ROWS_SQL@, Seq::empty())),
            final(self).conn_of() == old(self).conn_of(),
    {
        let ghost reads0 = self.reads();
        let read_result = self.read_finished_rows();
        assert(self.reads().drop_last() =~= reads0);
        let raw_rows = match read_result {
            Ok(raw_rows) => raw_rows,
            Err(e) => return Err(e),
        };
        let n = raw_rows.len();
        let mut rows: Vec<SessionRow> = Vec::new();
        let mut i: usize = 0;
        while i < n
            invariant
                n == raw_rows.len(),
                i <= n,
                rows@.len() == i,
                forall|j: int| 0 <= j < i ==> #[trigger] row_text_parses(raw_rows@[j].kind, raw_rows@[j].state),
                forall|j: int| 0 <= j < i ==> #[trigger] is_session_row_of(rows@[j], raw_rows@[j]),
                reads0 == old(self).reads(),
                self.reads().drop_last() == reads0,
                self.reads().len() == reads0.len() + 1,
                self.reads().last() == (StoreRead::FinishedSessions { answer: Some(raw_rows@) }),
                self.writes() == old(self).writes(),
                self.conn_of() == old(self).conn_of(),
                self.calls() == old(self).calls().push(query_call(FINISHED_ROWS_SQL@, Seq::empty())),
            decreases n - i,
        {
            match session_row_from_raw(&raw_rows[i]) {
                Ok(row) => {
                    assert(row_text_parses(raw_rows@[i as int].kind, raw_rows@[i as int].state));
                    assert(is_session_row_of(row, raw_rows@[i as int]));
                    let ghost before = rows@;
                    rows.push(row);
                    assert forall|j: int| 0 <= j <= i implies #[trigger] is_session_row_of(
                        rows@[j],
                        raw_rows@[j],
                    ) by {
                        if j < i {
                            assert(rows@[j] == before[j]);
                        }
                    }
                },
                Err(e) => {
                    let ghost raws = raw_rows@;
                    assert(is_parse_error(e, raws[i as int].kind, raws[i as int].state));
                    assert(!row_text_parses(raws[i as int].kind, raws[i as int].state));
                    assert(finished_answered(
                        StoreRead::FinishedSessions { answer: Some(raws) },
                        Err::<Vec<SessionRow>, StoreError>(e),
                    ));
                    return Err(e);
                },
            }
            i = i + 1;
        }
        assert forall|j: int| 0 <= j < raw_rows@.len() implies #[trigger] row_text_parses(
            raw_rows@[j].kind,
            raw_rows@[j].state,
        ) by {
            assert(is_session_row_of(rows@[j], raw_rows@[j]));
        }
        Ok(rows)
    }

    /// How many sessions are settled.
    pub fn finished_count(&mut self) -> (r: Result<i64, StoreError>)
        ensures
            final(self).reads() == old(self).reads().push(
                StoreRead::FinishedCount {
                    answer: match r {
                        Ok(n) => Some(n),
                        Err(_) => None,
                    },
                },
            ),
            final(self).writes() == old(self).writes(),
            final(self).calls() == old(self).calls().push(query_call(FINISHED_COUNT_SQL@, Seq::empty())),
            final(self).conn_of() == old(self).conn_of(),
    {
        self.calls = Ghost(self.calls@.push(query_call(FINISHED_COUNT_SQL@, Seq::empty())));
        let r = db_result(
            db::query_single_i64(&self.conn, FINISHED_COUNT_SQL),
        );
        let ghost answer = match r {
            Ok(n) => Some(n),
            Err(_) => None,
        };
        self.reads = Ghost(self.reads@.push(StoreRead::FinishedCount { answer }));
        r
    }

    /// Reads a setting; `None` when the key was never written.
    pub fn get_setting(&mut self, key: &str) -> (r: Result<Option<String>, StoreError>)
        ensures
            final(self).reads() == old(self).reads().push(
                StoreRead::Setting {
                    key: key@,
                    answer: match r {
                        Ok(v) => Some(opt_text(v)),
                        Err(_) => None,
                    },
                },
            ),
            final(self).writes() == old(self).writes(),
            final(self).calls() == old(self).calls().push(query_call(GET_SETTING_SQL@, seq![SqlArg::Text(key@)])),
            final(self).conn_of() == old(self).conn_of(),
    {
        let params = vec![SqlValue::Text(String::from_str(key))];
        assert(args_of(params@) =~= seq![SqlArg::Text(key@)]);
        self.calls = Ghost(self.calls@.push(query_call(GET_SETTING_SQL@, args_of(params@))));
        let r = self.query_setting(GET_SETTING_SQL, &params);
        let ghost answer = if r is Ok {
            Some(opt_text(r->Ok_0))
        } else {
            None
        };
        self.reads = Ghost(self.reads@.push(StoreRead::Setting { key: key@, answer }));
        r
    }

    fn query_setting(&self, sql: &str, params: &Vec<SqlValue>) -> (r: Result<Option<String>, StoreError>) {
        let mut stmt = db_result(db::prepare(&self.conn, sql))?;
        let mut rows = db_result(db::query(&mut stmt, params))?;
        match db_result(db::next_row(&mut rows))? {
            Some(row) => Ok(Some(db_result(db::get_text(row, 0))?)),
            None => Ok(None),
        }
    }

    /// Writes a setting, replacing any earlier value of the key.
    pub fn set_setting(&mut self, key: &str, value: &str) -> (r: Result<(), StoreError>)
        ensures
            final(self).writes().len() == old(self).writes().len() + 1,
            final(self).writes().drop_last() == old(self).writes(),
            is_setting_write(final(self).writes().last(), key@, value@),
            final(self).conn_of() == old(self).conn_of(),
            final(self).reads() == old(self).reads(),
            final(self).calls() == old(self).calls() + write_calls(final(self).writes().last()),
    {
        let w = StoreWrite::Setting { key: String::from_str(key), value: String::from_str(value) };
        self.perform(w)?;
        Ok(())
    }

    /// Per tag (untagged as the empty tag), over sessions started on local
    /// days `from_day..=to_day`: total time and count, largest total first.
    pub fn tag_totals_between(&mut self, from_day: &str, to_day: &str) -> (r: Result<
        Vec<TagTotal>,
        StoreError,
    >)
        ensures
            final(self).reads() == old(self).reads().push(
                StoreRead::TagTotals { from_day: from_day@, to_day: to_day@, answer: answer_of(r) },
            ),
            final(self).writes() == old(self).writes(),
            final(self).calls() == old(self).calls().push(query_call(TAG_TOTALS_SQL@, day_args(from_day@, to_day@))),
            final(self).conn_of() == old(self).conn_of(),
    {
        let params = day_params(from_day, to_day);
        self.calls = Ghost(self.calls@.push(query_call(TAG_TOTALS_SQL@, args_of(params@))));
        let r = self.query_tag_totals(TAG_TOTALS_SQL, &params);
        self.reads = Ghost(
            self.reads@.push(StoreRead::TagTotals { from_day: from_day@, to_day: to_day@, answer: answer_of(r) }),
        );
        r
    }

    fn query_tag_totals(&self, sql: &str, params: &Vec<SqlValue>) -> (r: Result<Vec<TagTotal>, StoreError>) {
        let mut stmt = db_result(
            db::prepare(&self.conn, sql),
        )?;
        let mut rows = db_result(db::query(&mut stmt, params))?;
        let mut out: Vec<TagTotal> = Vec::new();
        while out.len() < usize::MAX
            decreases usize::MAX - out.len(),
        {
            let row = match db_result(db::next_row(&mut rows))? {
                Some(row) => row,
                None => break,
            };
            let total = TagTotal {
                tag: db_result(db::get_text(row, 0))?,
                total_ms: db_result(db::get_i64(row, 1))?,
                session_count: db_result(db::get_i64(row, 2))?,
            };
            out.push(total);
        }
        Ok(out)
    }

    /// Renames (merges, or clears with `None`) a tag on every session whose
    /// tag is `from` (the empty `from` matches untagged sessions); returns how
    /// many sessions changed.
    pub fn rename_tag(&mut self, from: &str, to: Option<&str>) -> (r: Result<usize, StoreError>)
        ensures
            final(self).writes().len() == old(self).writes().len() + 1,
            final(self).writes().drop_last() == old(self).writes(),
            is_rename_write(final(self).writes().last(), from@, opt_str_text(to)),
            final(self).conn_of() == old(self).conn_of(),
            final(self).reads() == old(self).reads(),
            final(self).calls() == old(self).calls() + write_calls(final(self).writes().last()),
    {
        let owned_to = match to {
            Some(t) => Some(String::from_str(t)),
            None => None,
        };
        self.perform(StoreWrite::RenameTag { from: String::from_str(from), to: owned_to })
    }

    /// Per local day and tag, over sessions started on `from_day..=to_day`:
    /// total time, by day and then largest total first.
    pub fn tag_daily_totals_between(&mut self, from_day: &str, to_day: &str) -> (r: Result<
        Vec<TagDayTotal>,
        StoreError,
    >)
        ensures
            final(self).reads() == old(self).reads().push(
                StoreRead::TagDayTotals { from_day: from_day@, to_day: to_day@, answer: answer_of(r) },
            ),
            final(self).writes() == old(self).writes(),
            final(self).calls() == old(self).calls().push(query_call(TAG_DAY_TOTALS_SQL@, day_args(from_day@, to_day@))),
            final(self).conn_of() == old(self).conn_of(),
    {
        let params = day_params(from_day, to_day);
        self.calls = Ghost(self.calls@.push(query_call(TAG_DAY_TOTALS_SQL@, args_of(params@))));
        let r = self.query_tag_day_totals(TAG_DAY_TOTALS_SQL, &params);
        self.reads = Ghost(
            self.reads@.push(
                StoreRead::TagDayTotals { from_day: from_day@, to_day: to_day@, answer: answer_of(r) },
            ),
        );
        r
    }

    fn query_tag_day_totals(&self, sql: &str, params: &Vec<SqlValue>) -> (r: Result<Vec<TagDayTotal>, StoreError>) {
        let mut stmt = db_result(
            db::prepare(&self.conn, sql),
        )?;
        let mut rows = db_result(db::query(&mut stmt, params))?;
        let mut out: Vec<TagDayTotal> = Vec::new();
        while out.len() < usize::MAX
            decreases usize::MAX - out.len(),
        {
            let row = match db_result(db::next_row(&mut rows))? {
                Some(row) => row,
                None => break,
            };
            let total = TagDayTotal {
                day: db_result(db::get_text(row, 0))?,
                tag: db_result(db::get_text(row, 1))?,
                total_ms: db_result(db::get_i64(row, 2))?,
            };
            out.push(total);
        }
        Ok(out)
    }

    /// Per local hour of session start (0-23), over sessions started on
    /// `from_day..=to_day`: total time and count, by hour.
    pub fn hour_totals_between(&mut self, from_day: &str, to_day: &str) -> (r: Result<
        Vec<HourTotal>,
        StoreError,
    >)
        ensures
            final(self).reads().drop_last() == old(self).reads(),
            final(self).reads().len() == old(self).reads().len() + 1,
            hours_answered(final(self).reads().last(), from_day@, to_day@, r),
            final(self).writes() == old(self).writes(),
            final(self).calls() == old(self).calls().push(query_call(HOUR_TOTALS_SQL@, day_args(from_day@, to_day@))),
            final(self).conn_of() == old(self).conn_of(),
    {
        let params = day_params(from_day, to_day);
        self.calls = Ghost(self.calls@.push(query_call(HOUR_TOTALS_SQL@, args_of(params@))));
        let raw = self.query_hour_totals(HOUR_TOTALS_SQL, &params);
        self.reads = Ghost(
            self.reads@.push(StoreRead::HourTotals { from_day: from_day@, to_day: to_day@, answer: answer_of(raw) }),
        );
        let raw = match raw {
            Ok(raw) => raw,
            Err(e) => return Err(e),
        };
        let mut out: Vec<HourTotal> = Vec::new();
        let n = raw.len();
        for i in 0..n
            invariant
                n == raw@.len(),
                out@.len() == i,
                forall|j: int|
                    0 <= j < i ==> (#[trigger] out@[j]).hour == raw@[j].0 as u32 && out@[j].total_ms
                        == raw@[j].1 && out@[j].session_count == raw@[j].2,
        {
            let (hour, total_ms, session_count) = raw[i];
            out.push(HourTotal { hour: hour as u32, total_ms, session_count });
        }
        Ok(out)
    }

    fn query_hour_totals(&self, sql: &str, params: &Vec<SqlValue>) -> (r: Result<Vec<(i64, i64, i64)>, StoreError>) {
        let mut stmt = db_result(
            db::prepare(&self.conn, sql),
        )?;
        let mut rows = db_result(db::query(&mut stmt, params))?;
        let mut out: Vec<(i64, i64, i64)> = Vec::new();
        while out.len() < usize::MAX
            decreases usize::MAX - out.len(),
        {
            let row = match db_result(db::next_row(&mut rows))? {
                Some(row) => row,
                None => break,
            };
            let hour = db_result(db::get_i64(row, 0))?;
            let total_ms = db_result(db::get_i64(row, 1))?;
            let session_count = db_result(db::get_i64(row, 2))?;
            out.push((hour, total_ms, session_count));
        }
        Ok(out)
    }

    /// The underlying connection, for ad-hoc queries.
    pub fn conn(&self) -> (c: &rusqlite::Connection)
        ensures
            *c == self.conn_of(),
    {
        &self.conn
    }
}

} // verus!
