//! The text of the CSV exports: file-name and date checks, field escaping,
//! duration wording, the session rows and the head of the weekly report.

use crate::session::DailyStat;
use crate::text::{chars_of, decimal, push_char, push_decimal, push_signed_decimal, signed_decimal};
use vstd::prelude::*;

verus! {

/// A character allowed in an export file name.
pub open spec fn filename_char_ok(c: char) -> bool {
    ('0' <= c && c <= '9') || ('a' <= c && c <= 'z') || ('A' <= c && c <= 'Z') || c == '_' || c
        == '-' || c == '.'
}

/// Checks a file name sent by the front end before it is joined to the
/// downloads directory: non-empty, ASCII letters, digits, `_`, `-` and `.`
/// only, so that no path separator can reach the file system.
pub fn check_csv_filename(filename: &str) -> (r: Result<(), String>)
    ensures
        r is Ok <==> (filename@.len() > 0 && forall|i: int|
            0 <= i < filename@.len() ==> filename_char_ok(#[trigger] filename@[i])),
        r is Err ==> r->Err_0@ == "非法文件名"@,
{
    let chars = chars_of(filename);
    let mut ok = chars.len() > 0;
    let mut i: usize = 0;
    while i < chars.len()
        invariant
            i <= chars.len(),
            chars@ == filename@,
            ok == (chars.len() > 0 && forall|j: int| 0 <= j < i ==> filename_char_ok(#[trigger] chars@[j])),
        decreases chars.len() - i,
    {
        let c = chars[i];
        if !(('0' <= c && c <= '9') || ('a' <= c && c <= 'z') || ('A' <= c && c <= 'Z') || c == '_'
            || c == '-' || c == '.') {
            ok = false;
        }
        i = i + 1;
    }
    if ok {
        Ok(())
    } else {
        Err(String::from_str("非法文件名"))
    }
}

/// The shape `YYYY-MM-DD`: ten characters, `-` at positions 4 and 7, ASCII
/// digits elsewhere. (Such a string is ASCII, so its bytes and characters
/// coincide.)
pub open spec fn iso_day(s: Seq<char>) -> bool {
    &&& s.len() == 10
    &&& s[4] == '-'
    &&& s[7] == '-'
    &&& forall|i: int| 0 <= i < 10 && i != 4 && i != 7 ==> '0' <= #[trigger] s[i] <= '9'
}

/// Whether `day` has the shape `YYYY-MM-DD`; a malformed day would make a
/// range query silently empty.
pub fn is_iso_day(day: &str) -> (r: bool)
    ensures
        r == iso_day(day@),
{
    let chars = chars_of(day);
    if chars.len() != 10 || chars[4] != '-' || chars[7] != '-' {
        return false;
    }
    let mut i: usize = 0;
    while i < 10
        invariant
            i <= 10,
            chars@ == day@,
            chars.len() == 10,
            forall|j: int| 0 <= j < i && j != 4 && j != 7 ==> '0' <= #[trigger] chars@[j] <= '9',
        decreases 10 - i,
    {
        if i != 4 && i != 7 && !('0' <= chars[i] && chars[i] <= '9') {
            return false;
        }
        i = i + 1;
    }
    true
}

/// Whether a field needs quoting: it holds a comma, a quote or a line break.
pub open spec fn needs_quotes(s: Seq<char>) -> bool {
    exists|i: int| 0 <= i < s.len() && (s[i] == ',' || s[i] == '"' || s[i] == '\n' || s[i] == '\r')
}

/// `s` with every `"` doubled.
pub open spec fn doubled_quotes(s: Seq<char>) -> Seq<char>
    decreases s.len(),
{
    if s.len() == 0 {
        Seq::empty()
    } else if s.last() == '"' {
        doubled_quotes(s.drop_last()) + seq!['"', '"']
    } else {
        doubled_quotes(s.drop_last()).push(s.last())
    }
}

/// One CSV field: quoted, with inner quotes doubled, when it needs quotes.
pub open spec fn csv_field_text(s: Seq<char>) -> Seq<char> {
    if needs_quotes(s) {
        seq!['"'] + doubled_quotes(s) + seq!['"']
    } else {
        s
    }
}

/// Appends `s` as one CSV field.
fn push_csv_field(out: &mut String, s: &str)
    ensures
        final(out)@ == old(out)@ + csv_field_text(s@),
{
    let chars = chars_of(s);
    let mut quote = false;
    let mut i: usize = 0;
    while i < chars.len()
        invariant
            i <= chars.len(),
            chars@ == s@,
            quote == exists|j: int|
                0 <= j < i && (chars@[j] == ',' || chars@[j] == '"' || chars@[j] == '\n' || chars@[j]
                    == '\r'),
        decreases chars.len() - i,
    {
        let c = chars[i];
        if c == ',' || c == '"' || c == '\n' || c == '\r' {
            quote = true;
        }
        i = i + 1;
    }
    if !quote {
        let mut k: usize = 0;
        while k < chars.len()
            invariant
                k <= chars.len(),
                out@ == old(out)@ + chars@.subrange(0, k as int),
            decreases chars.len() - k,
        {
            push_char(out, chars[k]);
            assert(chars@.subrange(0, k + 1) =~= chars@.subrange(0, k as int).push(chars@[k as int]));
            k = k + 1;
        }
        assert(chars@.subrange(0, chars.len() as int) =~= s@);
        return;
    }
    push_char(out, '"');
    let ghost start = out@;
    let mut k: usize = 0;
    while k < chars.len()
        invariant
            k <= chars.len(),
            out@ == start + doubled_quotes(chars@.subrange(0, k as int)),
        decreases chars.len() - k,
    {
        let c = chars[k];
        if c == '"' {
            push_char(out, '"');
            push_char(out, '"');
        } else {
            push_char(out, c);
        }
        proof {
            let next = chars@.subrange(0, k + 1);
            assert(next.drop_last() =~= chars@.subrange(0, k as int));
            assert(next.last() == c);
            assert(out@ =~= start + doubled_quotes(next));
        }
        k = k + 1;
    }
    push_char(out, '"');
    assert(chars@.subrange(0, chars.len() as int) =~= s@);
    assert(out@ =~= old(out)@ + csv_field_text(s@));
}

/// CSV escaping: a field with a comma, a quote or a line break is put in
/// quotes with its quotes doubled; any other field is kept as it is.
pub fn csv_field(s: &str) -> (r: String)
    ensures
        r@ == csv_field_text(s@),
{
    let mut out = String::new();
    push_csv_field(&mut out, s);
    assert(out@ =~= csv_field_text(s@));
    out
}

// ---------------------------------------------------------------------------
// Durations in words.
// ---------------------------------------------------------------------------

/// Milliseconds as whole minutes, rounded half away from zero.
pub open spec fn rounded_minutes(ms: int) -> int {
    if ms >= 0 {
        (ms + 30_000) / 60_000
    } else {
        -((-ms + 30_000) / 60_000)
    }
}

/// `X 小时 Y 分`, `X 小时` or `Y 分钟`, from the rounded minutes.
pub open spec fn hm_words(ms: int) -> Seq<char> {
    let m = rounded_minutes(ms);
    if m >= 60 {
        if m % 60 == 0 {
            decimal((m / 60) as nat) + " 小时"@
        } else {
            decimal((m / 60) as nat) + " 小时 "@ + decimal((m % 60) as nat) + " 分"@
        }
    } else {
        signed_decimal(m) + " 分钟"@
    }
}

fn push_hm(s: &mut String, ms: i64)
    ensures
        final(s)@ == old(s)@ + hm_words(ms as int),
{
    let minutes: i64 = if ms >= 0 {
        let u = ms as u64;
        ((u + 30_000) / 60_000) as i64
    } else {
        let u: u64 = if ms == i64::MIN {
            9223372036854775808
        } else {
            (-ms) as u64
        };
        -(((u + 30_000) / 60_000) as i64)
    };
    assert(minutes == rounded_minutes(ms as int));
    if minutes >= 60 {
        let mu = minutes as u64;
        push_decimal(s, mu / 60);
        if mu % 60 == 0 {
            s.append(" 小时");
        } else {
            s.append(" 小时 ");
            push_decimal(s, mu % 60);
            s.append(" 分");
        }
    } else {
        push_signed_decimal(s, minutes);
        s.append(" 分钟");
    }
}

/// A duration for people: `X 小时 Y 分`, `X 小时` from an hour on, else
/// `Y 分钟`, on the duration rounded to whole minutes.
pub fn hm_text(ms: i64) -> (s: String)
    ensures
        s@ == hm_words(ms as int),
{
    let mut s = String::new();
    push_hm(&mut s, ms);
    assert(s@ =~= hm_words(ms as int));
    s
}

// ---------------------------------------------------------------------------
// The exports.
// ---------------------------------------------------------------------------

/// First line of the session export: a byte order mark (so that Excel reads
/// UTF-8) and the column names.
pub const SESSION_CSV_HEADER: &'static str = "\u{FEFF}开始时间,类型,时长(分钟),到点完成,标签,备注\r\n";

/// The label of a stored session kind in the export.
pub open spec fn kind_label_text(kind: Seq<char>) -> Seq<char> {
    if kind == "countdown"@ {
        "倒计时"@
    } else {
        "正计时"@
    }
}

/// One session line of the export, with the duration already written out.
pub open spec fn session_row_text(
    started: Seq<char>,
    kind: Seq<char>,
    minutes: Seq<char>,
    completed: i64,
    tag: Seq<char>,
    note: Seq<char>,
) -> Seq<char> {
    csv_field_text(started) + ","@ + kind_label_text(kind) + ","@ + minutes + ","@ + (if completed
        != 0 {
        "是"@
    } else {
        "否"@
    }) + ","@ + csv_field_text(tag) + ","@ + csv_field_text(note) + "\r\n"@
}

/// One line of the session export: start time, kind, minutes, whether the
/// countdown completed, tag and note, with the text fields escaped.
pub fn session_csv_row(
    started: &str,
    kind: &str,
    minutes: &str,
    completed: i64,
    tag: &str,
    note: &str,
) -> (row: String)
    ensures
        row@ == session_row_text(started@, kind@, minutes@, completed, tag@, note@),
{
    let mut row = String::new();
    push_csv_field(&mut row, started);
    row.append(",");
    if crate::text::str_eq(kind, "countdown") {
        row.append("倒计时");
    } else {
        row.append("正计时");
    }
    row.append(",");
    row.append(minutes);
    row.append(",");
    if completed != 0 {
        row.append("是");
    } else {
        row.append("否");
    }
    row.append(",");
    push_csv_field(&mut row, tag);
    row.append(",");
    push_csv_field(&mut row, note);
    row.append("\r\n");
    assert(row@ =~= session_row_text(started@, kind@, minutes@, completed, tag@, note@));
    row
}

/// The error for a malformed report day.
pub open spec fn bad_day_text(day: Seq<char>) -> Seq<char> {
    "日期格式应为 YYYY-MM-DD："@ + day
}

/// Checks a report request: the file name first, then both days.
pub fn check_report_request(filename: &str, from_day: &str, to_day: &str) -> (r: Result<(), String>)
    ensures
        r is Ok <==> (check_csv_filename_ok(filename@) && iso_day(from_day@) && iso_day(to_day@)),
        r is Err ==> r->Err_0@ == (if !check_csv_filename_ok(filename@) {
            "非法文件名"@
        } else if !iso_day(from_day@) {
            bad_day_text(from_day@)
        } else {
            bad_day_text(to_day@)
        }),
{
    match check_csv_filename(filename) {
        Ok(()) => {},
        Err(e) => return Err(e),
    }
    if !is_iso_day(from_day) {
        let mut e = String::from_str("日期格式应为 YYYY-MM-DD：");
        e.append(from_day);
        return Err(e);
    }
    if !is_iso_day(to_day) {
        let mut e = String::from_str("日期格式应为 YYYY-MM-DD：");
        e.append(to_day);
        return Err(e);
    }
    Ok(())
}

/// Whether [`check_csv_filename`] accepts a name.
pub open spec fn check_csv_filename_ok(name: Seq<char>) -> bool {
    name.len() > 0 && forall|i: int| 0 <= i < name.len() ==> filename_char_ok(#[trigger] name[i])
}

/// Sum of the daily totals.
pub open spec fn total_ms_of(days: Seq<DailyStat>) -> int
    decreases days.len(),
{
    if days.len() == 0 {
        0
    } else {
        total_ms_of(days.drop_last()) + days.last().total_ms
    }
}

/// Sum of the daily session counts.
pub open spec fn sessions_of(days: Seq<DailyStat>) -> int
    decreases days.len(),
{
    if days.len() == 0 {
        0
    } else {
        sessions_of(days.drop_last()) + days.last().session_count
    }
}

/// Whether every running sum over `days` fits in an `i64`.
pub open spec fn sums_fit(days: Seq<DailyStat>) -> bool {
    forall|k: int|
        0 <= k <= days.len() ==> i64::MIN <= #[trigger] total_ms_of(days.take(k)) <= i64::MAX
            && i64::MIN <= sessions_of(days.take(k)) <= i64::MAX
}

/// `a / b` rounded toward zero, for `b > 0`.
pub open spec fn div_toward_zero(a: int, b: int) -> int {
    if a >= 0 {
        a / b
    } else {
        -((-a) / b)
    }
}

/// The head of the weekly report: title, range, total time, session count,
/// and the daily average over the days that have records.
pub open spec fn report_head_text(from_day: Seq<char>, to_day: Seq<char>, days: Seq<DailyStat>) -> Seq<
    char,
> {
    let total = total_ms_of(days);
    "\u{FEFF}"@ + "PrisTimer 专注周报\r\n"@ + "统计范围,"@ + from_day + " 至 "@ + to_day + "\r\n"@
        + "总专注时长,"@ + hm_words(total) + "\r\n"@ + "总会话数,"@ + signed_decimal(
        sessions_of(days),
    ) + "\r\n"@ + if days.len() > 0 {
        "日均专注,"@ + hm_words(div_toward_zero(total, days.len() as int)) + "\r\n"@
    } else {
        Seq::empty()
    }
}

/// The head of the weekly report; the totals are summed from the daily rows,
/// so that the report's sections always agree. `None` when a running sum
/// leaves the `i64` range.
pub fn report_head(from_day: &str, to_day: &str, days: &Vec<DailyStat>) -> (r: Option<String>)
    ensures
        r is Some <==> sums_fit(days@),
        r is Some ==> r->0@ == report_head_text(from_day@, to_day@, days@),
{
    let mut total: i64 = 0;
    let mut sessions: i64 = 0;
    let mut i: usize = 0;
    assert(days@.take(0) =~= Seq::<DailyStat>::empty());
    while i < days.len()
        invariant
            i <= days.len(),
            total == total_ms_of(days@.take(i as int)),
            sessions == sessions_of(days@.take(i as int)),
            forall|k: int|
                0 <= k <= i ==> i64::MIN <= #[trigger] total_ms_of(days@.take(k)) <= i64::MAX
                    && i64::MIN <= sessions_of(days@.take(k)) <= i64::MAX,
        decreases days.len() - i,
    {
        let d = &days[i];
        assert(days@.take(i + 1).drop_last() =~= days@.take(i as int));
        assert(days@.take(i + 1).last() == days@[i as int]);
        let t = d.total_ms;
        let c = d.session_count;
        if (t > 0 && total > i64::MAX - t) || (t < 0 && total < i64::MIN - t) || (c > 0 && sessions
            > i64::MAX - c) || (c < 0 && sessions < i64::MIN - c) {
            assert(!sums_fit(days@)) by {
                assert(!(i64::MIN <= total_ms_of(days@.take(i + 1)) <= i64::MAX && i64::MIN
                    <= sessions_of(days@.take(i + 1)) <= i64::MAX));
            }
            return None;
        }
        total = total + t;
        sessions = sessions + c;
        i = i + 1;
    }
    assert(days@.take(days.len() as int) =~= days@);
    let mut s = String::from_str("\u{FEFF}");
    s.append("PrisTimer 专注周报\r\n");
    s.append("统计范围,");
    s.append(from_day);
    s.append(" 至 ");
    s.append(to_day);
    s.append("\r\n");
    s.append("总专注时长,");
    push_hm(&mut s, total);
    s.append("\r\n");
    s.append("总会话数,");
    push_signed_decimal(&mut s, sessions);
    s.append("\r\n");
    if days.len() > 0 {
        let n = days.len() as u64;
        let average: i64 = if total >= 0 {
            ((total as u64) / n) as i64
        } else {
            let magnitude: u64 = if total == i64::MIN {
                9223372036854775808
            } else {
                (-total) as u64
            };
            let q = magnitude / n;
            if q == 9223372036854775808 {
                i64::MIN
            } else {
                -(q as i64)
            }
        };
        assert(average == div_toward_zero(total as int, days@.len() as int));
        s.append("日均专注,");
        push_hm(&mut s, average);
        s.append("\r\n");
    }
    assert(s@ =~= report_head_text(from_day@, to_day@, days@));
    Some(s)
}

} // verus!
