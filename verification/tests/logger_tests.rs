use oar_ocr_web::calendar::civil_from_days;
use oar_ocr_web::logger::{log_file_name, should_remove_log_file, today_str, OcrLogger};
use std::time::{SystemTime, UNIX_EPOCH};

fn now_secs() -> u64 {
    SystemTime::now()
        .duration_since(UNIX_EPOCH)
        .unwrap_or_default()
        .as_secs()
}

#[test]
fn test_today_str() {
    let s = today_str(now_secs());
    assert_eq!(s.len(), 10);
    assert!(s.chars().nth(4) == Some('-'));
    assert!(s.chars().nth(7) == Some('-'));
}

#[test]
fn test_civil_from_days() {
    // 2026-06-23 = 20627 days since Unix epoch
    let (y, m, d) = civil_from_days(20627);
    assert_eq!(y, 2026);
    assert_eq!(m, 6);
    assert_eq!(d, 23);
}

#[test]
fn civil_from_days_epoch_and_neighbours() {
    assert_eq!(civil_from_days(0), (1970, 1, 1));
    assert_eq!(civil_from_days(-1), (1969, 12, 31));
    assert_eq!(civil_from_days(59), (1970, 3, 1));
    // 2000 is a leap year (divisible by 400), 1900 and 2100 are not.
    assert_eq!(civil_from_days(11016), (2000, 2, 29));
    assert_eq!(civil_from_days(11017), (2000, 3, 1));
    assert_eq!(civil_from_days(-25508), (1900, 3, 1));
    assert_eq!(civil_from_days(-25509), (1900, 2, 28));
    assert_eq!(civil_from_days(47541), (2100, 3, 1));
    assert_eq!(civil_from_days(47540), (2100, 2, 28));
    assert_eq!(civil_from_days(2932896), (9999, 12, 31));
    assert_eq!(civil_from_days(-719468), (0, 3, 1));
}

#[test]
fn civil_from_days_large_inputs() {
    assert_eq!(civil_from_days(i64::MAX - 719468).1 >= 1, true);
    let (y, m, d) = civil_from_days(i64::MIN);
    assert!(y < 0);
    assert!((1..=12).contains(&m));
    assert!((1..=31).contains(&d));
}

#[test]
fn today_str_known_instants() {
    assert_eq!(today_str(0), "1970-01-01");
    assert_eq!(today_str(86399), "1970-01-01");
    assert_eq!(today_str(86400), "1970-01-02");
    assert_eq!(today_str(20627 * 86400 + 12345), "2026-06-23");
    assert_eq!(today_str(253402300799), "9999-12-31");
    assert_eq!(today_str(253402300800), "10000-01-01");
}

#[test]
fn log_file_name_of_day() {
    assert_eq!(log_file_name("2026-06-23"), "ocr-2026-06-23.jsonl");
    assert_eq!(log_file_name(&today_str(0)), "ocr-1970-01-01.jsonl");
}

#[test]
fn logger_settings_from_environment_values() {
    let l = OcrLogger::from_env(None, None);
    assert_eq!(l.log_dir, "./logs");
    assert_eq!(l.retention_days, 30);
    let l = OcrLogger::from_env(Some("/var/log/ocr".to_string()), Some("7".to_string()));
    assert_eq!(l.log_dir, "/var/log/ocr");
    assert_eq!(l.retention_days, 7);
    assert_eq!(OcrLogger::from_env(None, Some("+12".to_string())).retention_days, 12);
    assert_eq!(OcrLogger::from_env(None, Some("abc".to_string())).retention_days, 30);
    assert_eq!(OcrLogger::from_env(None, Some("".to_string())).retention_days, 30);
    assert_eq!(OcrLogger::from_env(None, Some("-1".to_string())).retention_days, 30);
    assert_eq!(OcrLogger::from_env(None, Some(" 5".to_string())).retention_days, 30);
    assert_eq!(
        OcrLogger::from_env(None, Some("18446744073709551615".to_string())).retention_days,
        u64::MAX
    );
    assert_eq!(
        OcrLogger::from_env(None, Some("18446744073709551616".to_string())).retention_days,
        30
    );
}

#[test]
fn cleanup_cutoff_and_expiry() {
    let l = OcrLogger::from_env(None, Some("30".to_string()));
    assert_eq!(l.cleanup_cutoff(30 * 86400 + 5), Some(5));
    assert_eq!(l.cleanup_cutoff(30 * 86400), Some(0));
    assert_eq!(l.cleanup_cutoff(30 * 86400 - 1), None);
    assert!(should_remove_log_file(Some("jsonl"), Some(4), 5));
    assert!(!should_remove_log_file(Some("jsonl"), Some(5), 5));
    assert!(!should_remove_log_file(Some("json"), Some(1), 5));
    assert!(!should_remove_log_file(None, Some(1), 5));
    assert!(!should_remove_log_file(Some("jsonl"), None, 5));
}

fn days_in_month(y: i64, m: u32) -> u32 {
    let leap = (y % 4 == 0 && y % 100 != 0) || y % 400 == 0;
    match m {
        2 => {
            if leap {
                29
            } else {
                28
            }
        }
        4 | 6 | 9 | 11 => 30,
        _ => 31,
    }
}

#[test]
fn civil_from_days_walks_the_calendar() {
    // Day by day from 1600-01-01 (-135140) to the end of 2400, each day follows the previous one.
    let mut expected = (1600i64, 1u32, 1u32);
    for days in -135140i64..=157419 {
        assert_eq!(civil_from_days(days), expected, "day {days}");
        let (y, m, d) = expected;
        expected = if d < days_in_month(y, m) {
            (y, m, d + 1)
        } else if m < 12 {
            (y, m + 1, 1)
        } else {
            (y + 1, 1, 1)
        };
    }
}
