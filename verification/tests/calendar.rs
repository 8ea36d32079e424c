use pristimer::calendar::{civil_from_days, format_utc, local_date_text};

#[test]
fn civil_date_conversions() {
    assert_eq!(civil_from_days(0), (1970, 1, 1));
    assert_eq!(civil_from_days(19_723), (2024, 1, 1));
    // Day 20672 after 1970-01-01 is 2026-08-07; 2026-08-15 is day 20680.
    assert_eq!(civil_from_days(20_672), (2026, 8, 7));
    assert_eq!(civil_from_days(20_680), (2026, 8, 15));
}

#[test]
fn leap_days_and_era_edges() {
    assert_eq!(civil_from_days(-1), (1969, 12, 31));
    assert_eq!(civil_from_days(11_016), (2000, 2, 29));
    assert_eq!(civil_from_days(11_017), (2000, 3, 1));
    assert_eq!(civil_from_days(47_540), (2100, 2, 28));
    assert_eq!(civil_from_days(47_541), (2100, 3, 1));
    assert_eq!(civil_from_days(-719_468), (0, 3, 1));
    assert_eq!(civil_from_days(-719_469), (0, 2, 29));
}

#[test]
fn log_stamps_are_utc_with_padding() {
    assert_eq!(format_utc(0), "1970-01-01 00:00:00 UTC");
    assert_eq!(format_utc(1_700_000_000_123), "2023-11-14 22:13:20 UTC");
    assert_eq!(format_utc(951_782_399_999), "2000-02-28 23:59:59 UTC");
}

#[test]
fn backup_dates_come_from_epoch_seconds() {
    assert_eq!(local_date_text(0), "1970-01-01");
    assert_eq!(local_date_text(1_786_000_000), "2026-08-06");
    assert_eq!(local_date_text(86_399), "1970-01-01");
    assert_eq!(local_date_text(86_400), "1970-01-02");
}
