use pristimer::export::{
    check_csv_filename, check_report_request, csv_field, hm_text, is_iso_day, report_head,
    session_csv_row, SESSION_CSV_HEADER,
};
use pristimer::session::DailyStat;

fn day(d: &str, total_ms: i64, sessions: i64) -> DailyStat {
    DailyStat {
        day: d.to_string(),
        total_ms,
        session_count: sessions,
        completed_count: 0,
    }
}

#[test]
fn file_names_keep_to_a_safe_alphabet() {
    assert!(check_csv_filename("pristimer-2026-09-13.csv").is_ok());
    assert!(check_csv_filename("A_b.c").is_ok());
    assert_eq!(check_csv_filename("").unwrap_err(), "非法文件名");
    assert_eq!(check_csv_filename(r"..\..\Windows\x.csv").unwrap_err(), "非法文件名");
    assert!(check_csv_filename("a/b.csv").is_err());
    assert!(check_csv_filename("周报.csv").is_err());
    assert!(check_csv_filename("a b.csv").is_err());
}

#[test]
fn iso_days_are_checked_by_shape() {
    assert!(is_iso_day("2026-09-13"));
    assert!(is_iso_day("0000-00-00"));
    assert!(!is_iso_day("2026-9-13"));
    assert!(!is_iso_day("2026/09/13"));
    assert!(!is_iso_day("2026-09-1x"));
    assert!(!is_iso_day("2026-09-133"));
    assert!(!is_iso_day("２０２６-09-13"));
    assert!(!is_iso_day(""));
}

#[test]
fn csv_fields_are_quoted_only_when_needed() {
    assert_eq!(csv_field("plain"), "plain");
    assert_eq!(csv_field(""), "");
    assert_eq!(csv_field("a,b"), "\"a,b\"");
    assert_eq!(csv_field("say \"hi\""), "\"say \"\"hi\"\"\"");
    assert_eq!(csv_field("two\nlines"), "\"two\nlines\"");
    assert_eq!(csv_field("cr\r"), "\"cr\r\"");
}

#[test]
fn durations_read_in_hours_and_minutes() {
    assert_eq!(hm_text(0), "0 分钟");
    assert_eq!(hm_text(89_999), "1 分钟");
    assert_eq!(hm_text(90_000), "2 分钟");
    assert_eq!(hm_text(3_569_999), "59 分钟");
    assert_eq!(hm_text(3_570_000), "1 小时");
    assert_eq!(hm_text(3_600_000), "1 小时");
    assert_eq!(hm_text(5_400_000), "1 小时 30 分");
    assert_eq!(hm_text(-90_000), "-2 分钟");
    assert_eq!(hm_text(-89_999), "-1 分钟");
}

#[test]
fn session_rows_escape_text_and_label_kinds() {
    assert_eq!(
        session_csv_row("2026-09-13 08:00:00", "countdown", "25.0", 1, "数学", ""),
        "2026-09-13 08:00:00,倒计时,25.0,是,数学,\r\n"
    );
    assert_eq!(
        session_csv_row("t", "stopwatch", "0.5", 0, "", "a,\"b\""),
        "t,正计时,0.5,否,,\"a,\"\"b\"\"\"\r\n"
    );
    assert!(SESSION_CSV_HEADER.starts_with('\u{FEFF}'));
    assert!(SESSION_CSV_HEADER.ends_with("\r\n"));
}

#[test]
fn report_requests_check_the_name_then_the_days() {
    assert!(check_report_request("r.csv", "2026-09-01", "2026-09-07").is_ok());
    assert_eq!(
        check_report_request("bad/name", "x", "y").unwrap_err(),
        "非法文件名"
    );
    assert_eq!(
        check_report_request("r.csv", "2026-9-1", "y").unwrap_err(),
        "日期格式应为 YYYY-MM-DD：2026-9-1"
    );
    assert_eq!(
        check_report_request("r.csv", "2026-09-01", "later").unwrap_err(),
        "日期格式应为 YYYY-MM-DD：later"
    );
}

#[test]
fn report_head_sums_the_days_and_averages_over_recorded_days() {
    let days = vec![day("2026-09-01", 3_600_000, 2), day("2026-09-03", 1_800_000, 1)];
    let head = report_head("2026-09-01", "2026-09-07", &days).unwrap();
    assert_eq!(
        head,
        "\u{FEFF}PrisTimer 专注周报\r\n统计范围,2026-09-01 至 2026-09-07\r\n总专注时长,1 小时 30 分\r\n总会话数,3\r\n日均专注,45 分钟\r\n"
    );
}

#[test]
fn report_head_without_days_has_no_average() {
    let head = report_head("2026-09-01", "2026-09-07", &Vec::new()).unwrap();
    assert_eq!(
        head,
        "\u{FEFF}PrisTimer 专注周报\r\n统计范围,2026-09-01 至 2026-09-07\r\n总专注时长,0 分钟\r\n总会话数,0\r\n"
    );
}

#[test]
fn report_head_refuses_totals_beyond_i64() {
    let days = vec![day("a", i64::MAX, 1), day("b", 1, 1)];
    assert!(report_head("x", "y", &days).is_none());
}
