use erebus::cron::{parse_interval, parse_schedule, try_parse_schedule};

#[test]
fn test_parse_every_5m() {
    assert_eq!(parse_schedule("@every 5m"), 300);
}

#[test]
fn test_parse_hourly() {
    assert_eq!(parse_schedule("@hourly"), 3600);
}

#[test]
fn test_parse_daily() {
    assert_eq!(parse_schedule("@daily"), 86400);
}

#[test]
fn test_parse_weekly() {
    assert_eq!(parse_schedule("@weekly"), 604_800);
}

#[test]
fn test_parse_cron_style() {
    assert_eq!(parse_schedule("*/5 * * * *"), 300);
}

#[test]
fn test_parse_interval_seconds() {
    assert_eq!(parse_interval("30s"), 30);
}

#[test]
fn test_parse_interval_minutes() {
    assert_eq!(parse_interval("5m"), 300);
}

#[test]
fn test_parse_interval_hours() {
    assert_eq!(parse_interval("2h"), 7200);
}

#[test]
fn interval_fallbacks() {
    assert_eq!(parse_interval("xs"), 0);
    assert_eq!(parse_interval("xm"), 3600);
    assert_eq!(parse_interval("xh"), 3600);
    assert_eq!(parse_interval("30"), 3600);
    assert_eq!(parse_interval("120"), 120);
    assert_eq!(parse_interval("garbage"), 3600);
}

#[test]
fn schedule_is_trimmed_and_lowercased() {
    assert_eq!(parse_schedule("  @HOURLY "), 3600);
    assert_eq!(parse_schedule("@EVERY 2H"), 7200);
}

#[test]
fn cron_style_without_step_means_a_minute() {
    assert_eq!(parse_schedule("0 * * * *"), 60);
    assert_eq!(parse_schedule("nonsense"), 60);
}

#[test]
fn overflowing_interval_is_refused() {
    assert_eq!(try_parse_schedule("@every 18446744073709551615m"), None);
    assert_eq!(try_parse_schedule("@every 5m"), Some(300));
}

#[test]
fn monthly_and_yearly_have_their_own_periods() {
    assert_eq!(parse_schedule("@monthly"), 2_592_000);
    assert_eq!(parse_schedule("@yearly"), 31_536_000);
    assert_eq!(parse_schedule("  @YEARLY "), 31_536_000);
    assert!(parse_schedule("@monthly") > parse_schedule("@weekly"));
    assert!(parse_schedule("@yearly") > parse_schedule("@monthly"));
}
