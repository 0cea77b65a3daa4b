use g_type::usage::{
    chrono_now_utc, currency_symbol, days_to_ymd, format_timestamp_parts, this_week_range,
    today_prefix, week_range_from_days, TokenUsage,
};

#[test]
fn test_currency_symbol() {
    assert_eq!(currency_symbol("USD"), "$");
    assert_eq!(currency_symbol("EUR"), "€");
    assert_eq!(currency_symbol("GBP"), "£");
    assert_eq!(currency_symbol("UNKNOWN"), "$"); // fallback
}

#[test]
fn test_days_to_ymd_epoch() {
    let (y, m, d) = days_to_ymd(0);
    assert_eq!((y, m, d), (1970, 1, 1));
}

#[test]
fn test_days_to_ymd_known_date() {
    // 2024-01-01 = day 19723 since epoch
    let (y, m, d) = days_to_ymd(19723);
    assert_eq!((y, m, d), (2024, 1, 1));
}

#[test]
fn test_days_to_ymd_leap_day() {
    // 2024-02-29 = day 19782 since epoch
    let (y, m, d) = days_to_ymd(19782);
    assert_eq!((y, m, d), (2024, 2, 29));
}

#[test]
fn test_chrono_now_utc_format() {
    let ts = chrono_now_utc();
    // Should match YYYY-MM-DDTHH:MM:SSZ
    assert_eq!(ts.len(), 20);
    assert!(ts.ends_with('Z'));
    assert_eq!(&ts[4..5], "-");
    assert_eq!(&ts[7..8], "-");
    assert_eq!(&ts[10..11], "T");
}

#[test]
fn test_format_timestamp_parts_exact() {
    // 2025-01-15T10:30:00Z
    let s = format_timestamp_parts(2025, 1, 15, 10 * 3600 + 30 * 60);
    assert_eq!(s, "2025-01-15T10:30:00Z");
    let s = format_timestamp_parts(1970, 12, 31, 86399);
    assert_eq!(s, "1970-12-31T23:59:59Z");
}

#[test]
fn test_today_prefix_shape() {
    let p = today_prefix();
    assert_eq!(p.len(), 10);
    assert_eq!(&p[4..5], "-");
    assert_eq!(&p[7..8], "-");
}

#[test]
fn test_week_range_from_days() {
    // 2024-01-01 (day 19723) was a Monday.
    let (mon, sun) = week_range_from_days(19723);
    assert_eq!(mon, 19723);
    assert_eq!(sun, 19729);
    // Wednesday of the same week maps back to it.
    let (mon2, sun2) = week_range_from_days(19725);
    assert_eq!((mon2, sun2), (mon, sun));
}

#[test]
fn test_this_week_range_shape() {
    let (start, end) = this_week_range();
    assert_eq!(start.len(), 10);
    assert_eq!(end.len(), 10);
    assert!(start <= end);
}

#[test]
fn test_token_usage_default() {
    let u = TokenUsage::default();
    assert_eq!(u.prompt_tokens, 0);
    assert_eq!(u.candidates_tokens, 0);
    assert_eq!(u.total_tokens, 0);
}

#[test]
fn test_tracking_file_path_name() {
    if let Ok(p) = g_type::paths::tracking_file_path() {
        assert!(p.to_string_lossy().ends_with("usage.jsonl"));
    }
}

#[test]
fn test_config_path_name() {
    if let Ok(p) = g_type::paths::config_path() {
        assert!(p.to_string_lossy().ends_with("config.toml"));
    }
}
