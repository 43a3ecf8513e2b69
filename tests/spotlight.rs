use chrono::Datelike;
use macsweep::usage::spotlight::{parse_mdls_datetime, parse_mdls_use_count, parse_spotlight_usage};

#[test]
fn test_parse_mdls_datetime() {
    let output = "kMDItemLastUsedDate = 2026-01-18 21:35:48 +0000";
    let result = parse_mdls_datetime(output);
    assert!(result.is_some());
    let dt = chrono::DateTime::from_timestamp(result.unwrap(), 0).unwrap();
    assert_eq!(dt.year(), 2026);
    assert_eq!(dt.month(), 1);
    assert_eq!(dt.day(), 18);
}

#[test]
fn test_parse_mdls_null() {
    let output = "kMDItemLastUsedDate = (null)";
    let result = parse_mdls_datetime(output);
    assert!(result.is_none());
}

#[test]
fn mdls_datetime_exact_seconds_and_invalid_day() {
    assert_eq!(parse_mdls_datetime("2026-01-18 21:35:48 +0000"), Some(1768772148));
    assert_eq!(parse_mdls_datetime("x = 2023-02-29 00:00:00 +0000"), None);
    assert_eq!(parse_mdls_datetime("x = 2024-02-29 00:00:00 +0000"), Some(1709164800));
    assert_eq!(parse_mdls_datetime("no date here"), None);
}

#[test]
fn mdls_use_count_after_its_key() {
    let out = "kMDItemLastUsedDate = 2026-01-18 21:35:48 +0000\nkMDItemUseCount     = 1033\n";
    assert_eq!(parse_mdls_use_count(out), Some(1033));
    assert_eq!(parse_mdls_use_count("kMDItemUseCount = (null)"), None);
    assert_eq!(parse_mdls_use_count("kMDItemUseCount = 99999999999"), None);
    assert_eq!(parse_mdls_use_count("nothing"), None);
    let (last, count) = parse_spotlight_usage(out);
    assert_eq!(last, Some(1768772148));
    assert_eq!(count, Some(1033));
}
