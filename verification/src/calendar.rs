//! Proleptic Gregorian dates from day counts, for the daily backup's file
//! name and the log's time stamps.

use crate::text::{decimal, decimal_string, push_char};
use vstd::prelude::*;

verus! {

/// Leap years: divisible by 4, except centuries not divisible by 400.
pub open spec fn is_leap_year(y: int) -> bool {
    (y % 4 == 0 && y % 100 != 0) || y % 400 == 0
}

/// Days in month `m` (1-12) of year `y`.
pub open spec fn month_length(y: int, m: int) -> int {
    if m == 2 {
        if is_leap_year(y) {
            29
        } else {
            28
        }
    } else if m == 4 || m == 6 || m == 9 || m == 11 {
        30
    } else {
        31
    }
}

/// Whether `y-m-d` is a date.
pub open spec fn valid_date(y: int, m: int, d: int) -> bool {
    1 <= m <= 12 && 1 <= d <= month_length(y, m)
}

/// Leap years before year `y` (counted from year 1; negative before it).
pub open spec fn leaps_before(y: int) -> int {
    (y - 1) / 4 - (y - 1) / 100 + (y - 1) / 400
}

/// Days of the year before the first of month `m`.
pub open spec fn days_before_month(y: int, m: int) -> int {
    let common: int = if m == 1 {
        0
    } else if m == 2 {
        31
    } else if m == 3 {
        59
    } else if m == 4 {
        90
    } else if m == 5 {
        120
    } else if m == 6 {
        151
    } else if m == 7 {
        181
    } else if m == 8 {
        212
    } else if m == 9 {
        243
    } else if m == 10 {
        273
    } else if m == 11 {
        304
    } else {
        334
    };
    common + if m > 2 && is_leap_year(y) {
        1int
    } else {
        0int
    }
}

/// The number of days from 1970-01-01 to `y-m-d`.
pub open spec fn day_number(y: int, m: int, d: int) -> int {
    365 * (y - 1970) + leaps_before(y) - leaps_before(1970) + days_before_month(y, m) + d - 1
}

/// Within one 400-year era counted from March of its year 0: the year of the
/// era, the day of that (March-based) year, and its bounds.
proof fn lemma_era_day(doe: int)
    requires
        0 <= doe <= 146096,
    ensures
        ({
            let yoe = (doe - doe / 1460 + doe / 36524 - doe / 146096) / 365;
            let doy = doe - (365 * yoe + yoe / 4 - yoe / 100);
            &&& 0 <= yoe <= 399
            &&& 0 <= doy <= 365
            &&& doy == 365 ==> is_leap_year(yoe + 1)
        }),
{
    let yoe = (doe - doe / 1460 + doe / 36524 - doe / 146096) / 365;
    let doy = doe - (365 * yoe + yoe / 4 - yoe / 100);
    assert(0 <= yoe <= 399 && 0 <= doy <= 365 && (doy == 365 ==> is_leap_year(yoe + 1)))
        by (nonlinear_arith)
        requires
            0 <= doe <= 146096,
            yoe == (doe - doe / 1460 + doe / 36524 - doe / 146096) / 365,
            doy == doe - (365 * yoe + yoe / 4 - yoe / 100),
    ;
}

/// Within a March-based year: the month index from March, the day of the
/// month, and the days before that month.
proof fn lemma_month_day(doy: int, leap: bool)
    requires
        0 <= doy <= 365,
        doy == 365 ==> leap,
    ensures
        ({
            let mp = (5 * doy + 2) / 153;
            let d = doy - (153 * mp + 2) / 5 + 1;
            let m = if mp < 10 { mp + 3 } else { mp - 9 };
            &&& 0 <= mp <= 11
            &&& 1 <= m <= 12
            &&& 1 <= d
            &&& d <= (if m == 2 { if leap { 29int } else { 28int } } else if m == 4 || m == 6 || m == 9
                || m == 11 { 30int } else { 31int })
            &&& m >= 3 ==> (153 * mp + 2) / 5 == days_before_month(1, m) - 59
            &&& m <= 2 ==> (153 * mp + 2) / 5 == days_before_month(1, m) + 306
        }),
{
    let mp = (5 * doy + 2) / 153;
    let d = doy - (153 * mp + 2) / 5 + 1;
    assert(0 <= mp <= 11) by (nonlinear_arith)
        requires
            0 <= doy <= 365,
            mp == (5 * doy + 2) / 153,
    ;
    assert(1 <= d && (mp < 11 ==> d <= (153 * (mp + 1) + 2) / 5 - (153 * mp + 2) / 5) && (mp == 11
        ==> d == doy - 336)) by (nonlinear_arith)
        requires
            0 <= doy <= 365,
            mp == (5 * doy + 2) / 153,
            d == doy - (153 * mp + 2) / 5 + 1,
    ;
    assert(!is_leap_year(1));
    if mp == 0 {
    } else if mp == 1 {
    } else if mp == 2 {
    } else if mp == 3 {
    } else if mp == 4 {
    } else if mp == 5 {
    } else if mp == 6 {
    } else if mp == 7 {
    } else if mp == 8 {
    } else if mp == 9 {
    } else if mp == 10 {
    } else {
    }
}

/// Leap years repeat every 400 years, 97 of them per period.
proof fn lemma_era_shift(era: int, k: int)
    ensures
        is_leap_year(400 * era + k) == is_leap_year(k),
        leaps_before(400 * era + k) == 97 * era + leaps_before(k),
{
    assert(is_leap_year(400 * era + k) == is_leap_year(k)) by (nonlinear_arith);
    assert(leaps_before(400 * era + k) == 97 * era + leaps_before(k)) by (nonlinear_arith);
}

/// Within an era, the leap years up to `yoe` are `yoe / 4 - yoe / 100`.
proof fn lemma_leaps_in_era(yoe: int)
    requires
        0 <= yoe <= 399,
    ensures
        leaps_before(yoe) + (if is_leap_year(yoe) { 1int } else { 0int }) == yoe / 4 - yoe / 100,
        leaps_before(yoe + 1) == yoe / 4 - yoe / 100,
{
    assert(leaps_before(yoe) + (if is_leap_year(yoe) { 1int } else { 0int }) == yoe / 4 - yoe / 100)
        by (nonlinear_arith)
        requires
            0 <= yoe <= 399,
    ;
    assert(leaps_before(yoe + 1) == yoe / 4 - yoe / 100) by (nonlinear_arith)
        requires
            0 <= yoe <= 399,
    ;
}

/// The year of the era, day of the (March-based) year, month index from
/// March, day of month and month of day `doe` of an era.
spec fn era_parts(doe: int) -> (int, int, int, int, int) {
    let yoe = (doe - doe / 1460 + doe / 36524 - doe / 146096) / 365;
    let doy = doe - (365 * yoe + yoe / 4 - yoe / 100);
    let mp = (5 * doy + 2) / 153;
    let d = doy - (153 * mp + 2) / 5 + 1;
    let m = if mp < 10 {
        mp + 3
    } else {
        mp - 9
    };
    (yoe, doy, mp, d, m)
}

/// Day `doe` of era `era` is the date that the algorithm reads off.
proof fn lemma_civil(era: int, doe: int)
    requires
        0 <= doe <= 146096,
    ensures
        ({
            let (yoe, doy, mp, d, m) = era_parts(doe);
            let y = 400 * era + yoe + if m <= 2 { 1int } else { 0int };
            &&& 0 <= yoe <= 399
            &&& 0 <= doy <= 365
            &&& 0 <= mp <= 11
            &&& valid_date(y, m, d)
            &&& day_number(y, m, d) == 146097 * era + doe - 719468
        }),
{
    let (yoe, doy, mp, d, m) = era_parts(doe);
    lemma_era_day(doe);
    lemma_month_day(doy, is_leap_year(yoe + 1));
    lemma_leaps_in_era(yoe);
    lemma_era_shift(era, yoe);
    lemma_era_shift(era, yoe + 1);
    assert(doe == 365 * yoe + yoe / 4 - yoe / 100 + (153 * mp + 2) / 5 + d - 1);
    assert(leaps_before(1970) == 477);
    if m <= 2 {
        let y = 400 * era + yoe + 1;
        assert(days_before_month(y, m) == days_before_month(1, m));
        assert(day_number(y, m, d) == 146097 * era + doe - 719468);
    } else {
        let y = 400 * era + yoe;
        assert(days_before_month(y, m) == days_before_month(1, m) + if is_leap_year(yoe) {
            1int
        } else {
            0int
        });
        assert(day_number(y, m, d) == 146097 * era + doe - 719468);
    }
}

/// The date of day `z`, counted from 1970-01-01 (day 0), in the proleptic
/// Gregorian calendar: `(year, month, day)`.
///
/// Days are grouped in 400-year eras of 146097 days that start on 1 March,
/// so that the leap day falls at the end of each year of an era.
pub fn civil_from_days(z: i64) -> (r: (i64, u32, u32))
    requires
        z <= i64::MAX - 719_468,
        z + 719_468 >= i64::MIN + 146_096,
    ensures
        valid_date(r.0 as int, r.1 as int, r.2 as int),
        day_number(r.0 as int, r.1 as int, r.2 as int) == z,
{
    let zz: i64 = z + 719_468;
    let era: i64 = if zz >= 0 {
        ((zz as u64) / 146_097) as i64
    } else {
        let magnitude: u64 = (-zz) as u64;
        -(((magnitude + 146_096) / 146_097) as i64)
    };
    assert(era == zz as int / 146_097) by (nonlinear_arith)
        requires
            zz >= 0 ==> era == zz / 146_097,
            zz < 0 ==> era == -((-zz + 146_096) / 146_097),
    ;
    assert(0 <= zz - era * 146_097 <= 146_096) by (nonlinear_arith)
        requires
            era == zz as int / 146_097,
    ;
    let doe: u64 = (zz - era * 146_097) as u64;
    proof {
        lemma_civil(era as int, doe as int);
    }
    let ghost parts = era_parts(doe as int);
    let yoe: u64 = (doe - doe / 1460 + doe / 36_524 - doe / 146_096) / 365;
    let doy: u64 = doe - (365 * yoe + yoe / 4 - yoe / 100);
    let mp: u64 = (5 * doy + 2) / 153;
    assert(yoe == parts.0 && doy == parts.1 && mp == parts.2);
    let d: u32 = (doy - (153 * mp + 2) / 5 + 1) as u32;
    let m: u32 = if mp < 10 {
        (mp + 3) as u32
    } else {
        (mp - 9) as u32
    };
    assert(d == parts.3 && m == parts.4);
    let y: i64 = yoe as i64 + era * 400;
    let year = if m <= 2 {
        y + 1
    } else {
        y
    };
    (year, m, d)
}

proof fn lemma_leaps_step(y: int)
    ensures
        leaps_before(y + 1) == leaps_before(y) + if is_leap_year(y) { 1int } else { 0int },
{
    assert(leaps_before(y + 1) == leaps_before(y) + if is_leap_year(y) { 1int } else { 0int })
        by (nonlinear_arith);
}

proof fn lemma_leaps_monotone(a: int, b: int)
    requires
        a <= b,
    ensures
        leaps_before(a) <= leaps_before(b),
    decreases b - a,
{
    if a < b {
        lemma_leaps_monotone(a, b - 1);
        lemma_leaps_step(b - 1);
    }
}

/// Day numbers of a valid date within its year: from `day_number(y, 1, 1)`
/// to the last day of the year.
proof fn lemma_day_in_year(y: int, m: int, d: int)
    requires
        valid_date(y, m, d),
    ensures
        day_number(y, 1, 1) <= day_number(y, m, d) <= day_number(y, 1, 1) + 364 + if is_leap_year(
            y,
        ) {
            1int
        } else {
            0int
        },
{
}

/// Each day number names one date: two valid dates with the same day number
/// are the same date.
pub proof fn law_day_number_is_one_to_one(y1: int, m1: int, d1: int, y2: int, m2: int, d2: int)
    requires
        valid_date(y1, m1, d1),
        valid_date(y2, m2, d2),
        day_number(y1, m1, d1) == day_number(y2, m2, d2),
    ensures
        y1 == y2 && m1 == m2 && d1 == d2,
{
    lemma_day_in_year(y1, m1, d1);
    lemma_day_in_year(y2, m2, d2);
    if y1 < y2 {
        lemma_leaps_step(y1);
        lemma_leaps_monotone(y1 + 1, y2);
        assert(false);
    } else if y2 < y1 {
        lemma_leaps_step(y2);
        lemma_leaps_monotone(y2 + 1, y1);
        assert(false);
    }
}

/// `n` in decimal, with zeros in front up to `width` characters.
pub open spec fn zero_padded(n: nat, width: nat) -> Seq<char> {
    let digits = decimal(n);
    if digits.len() < width {
        Seq::new((width - digits.len()) as nat, |i: int| '0') + digits
    } else {
        digits
    }
}

/// A year as `{:04}` writes it: four digits at least, the sign counted.
pub open spec fn year_text(y: int) -> Seq<char> {
    if y < 0 {
        seq!['-'] + zero_padded((-y) as nat, 3)
    } else {
        zero_padded(y as nat, 4)
    }
}

/// `YYYY-MM-DD`.
pub open spec fn date_text(y: int, m: int, d: int) -> Seq<char> {
    year_text(y) + seq!['-'] + zero_padded(m as nat, 2) + seq!['-'] + zero_padded(d as nat, 2)
}

/// Appends `n` with zeros in front up to `width` characters.
fn push_padded(s: &mut String, n: u64, width: usize)
    ensures
        final(s)@ == old(s)@ + zero_padded(n as nat, width as nat),
{
    let digits = decimal_string(n);
    let len = digits.as_str().unicode_len();
    let mut k = len;
    while k < width
        invariant
            len == decimal(n as nat).len(),
            digits@ == decimal(n as nat),
            len <= k,
            k <= width || k == len,
            s@ == old(s)@ + Seq::new((k - len) as nat, |i: int| '0'),
        decreases width - k,
    {
        push_char(s, '0');
        assert(s@ =~= old(s)@ + Seq::new((k + 1 - len) as nat, |i: int| '0'));
        k = k + 1;
    }
    s.append(digits.as_str());
    if len < width {
        assert(s@ =~= old(s)@ + zero_padded(n as nat, width as nat));
    } else {
        assert(s@ =~= old(s)@ + zero_padded(n as nat, width as nat));
    }
}

/// Appends a year as `{:04}` writes it.
fn push_year(s: &mut String, y: i64)
    ensures
        final(s)@ == old(s)@ + year_text(y as int),
{
    if y < 0 {
        push_char(s, '-');
        let magnitude: u64 = if y == i64::MIN {
            9223372036854775808
        } else {
            (-y) as u64
        };
        push_padded(s, magnitude, 3);
        assert(s@ =~= old(s)@ + year_text(y as int));
    } else {
        push_padded(s, y as u64, 4);
    }
}

/// The local date of the daily backup, `YYYY-MM-DD`, from seconds since the
/// Unix epoch (the local offset is taken as zero).
pub fn local_date_text(epoch_secs: u64) -> (s: String)
    ensures
        exists|y: int, m: int, d: int|
            valid_date(y, m, d) && day_number(y, m, d) == epoch_secs / 86_400 && s@ == date_text(
                y,
                m,
                d,
            ),
{
    let days: i64 = (epoch_secs / 86_400) as i64;
    let (y, m, d) = civil_from_days(days);
    let mut s = String::new();
    push_year(&mut s, y);
    push_char(&mut s, '-');
    push_padded(&mut s, m as u64, 2);
    push_char(&mut s, '-');
    push_padded(&mut s, d as u64, 2);
    assert(s@ =~= date_text(y as int, m as int, d as int));
    s
}

/// The log's time stamp for `YYYY-MM-DD HH:MM:SS UTC`.
pub open spec fn utc_stamp_text(y: int, m: int, d: int, seconds_of_day: int) -> Seq<char> {
    date_text(y, m, d) + seq![' '] + zero_padded((seconds_of_day / 3600) as nat, 2) + seq![':']
        + zero_padded(((seconds_of_day % 3600) / 60) as nat, 2) + seq![':'] + zero_padded(
        (seconds_of_day % 60) as nat,
        2,
    ) + " UTC"@
}

/// Epoch milliseconds as `YYYY-MM-DD HH:MM:SS UTC`. The seconds are taken
/// as an `i64`, as the time stamps of the log are.
pub fn format_utc(ms: u128) -> (s: String)
    ensures
        ({
            let secs = ((ms / 1000) as i64) as int;
            exists|y: int, m: int, d: int|
                valid_date(y, m, d) && day_number(y, m, d) == secs / 86_400 && s@ == utc_stamp_text(
                    y,
                    m,
                    d,
                    secs % 86_400,
                )
        }),
{
    #[verifier::truncate]
    let secs: i64 = (ms / 1000) as i64;
    let days: i64 = if secs >= 0 {
        secs / 86_400
    } else {
        let magnitude: u64 = if secs == i64::MIN {
            9223372036854775808
        } else {
            (-secs) as u64
        };
        -(((magnitude + 86_399) / 86_400) as i64)
    };
    assert(days == secs as int / 86_400) by (nonlinear_arith)
        requires
            secs >= 0 ==> days == secs / 86_400,
            secs < 0 ==> days == -((-secs + 86_399) / 86_400),
    ;
    let tod: i64 = if secs >= 0 {
        secs % 86_400
    } else {
        let magnitude: u64 = if secs == i64::MIN {
            9223372036854775808
        } else {
            (-secs) as u64
        };
        let r = magnitude % 86_400;
        if r == 0 {
            0
        } else {
            (86_400 - r) as i64
        }
    };
    assert(tod == secs as int % 86_400) by (nonlinear_arith)
        requires
            secs >= 0 ==> tod == secs % 86_400,
            secs < 0 ==> (if (-secs) % 86_400 == 0 {
                tod == 0
            } else {
                tod == 86_400 - (-secs) % 86_400
            }),
    ;
    let (y, m, d) = civil_from_days(days);
    let t = tod as u64;
    let mut s = String::new();
    push_year(&mut s, y);
    push_char(&mut s, '-');
    push_padded(&mut s, m as u64, 2);
    push_char(&mut s, '-');
    push_padded(&mut s, d as u64, 2);
    push_char(&mut s, ' ');
    push_padded(&mut s, t / 3600, 2);
    push_char(&mut s, ':');
    push_padded(&mut s, (t % 3600) / 60, 2);
    push_char(&mut s, ':');
    push_padded(&mut s, t % 60, 2);
    s.append(" UTC");
    assert(s@ =~= utc_stamp_text(y as int, m as int, d as int, tod as int));
    s
}

} // verus!
