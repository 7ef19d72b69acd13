use multica_filter::clock::compute_duration;

fn seconds(s: &str) -> Option<i64> {
    s.parse::<f64>().ok().map(|v| v as i64)
}

#[test]
fn test_duration_minutes() {
    assert_eq!(
        compute_duration("2026-04-14T10:00:01Z", "2026-04-14T10:05:40Z", &seconds),
        "~5m"
    );
}

#[test]
fn test_duration_seconds() {
    assert_eq!(
        compute_duration("2026-04-14T10:00:00Z", "2026-04-14T10:00:45Z", &seconds),
        "~45s"
    );
}

#[test]
fn test_duration_empty() {
    assert_eq!(compute_duration("", "", &seconds), "-");
}

#[test]
fn duration_exactly_one_minute() {
    assert_eq!(compute_duration("2026-04-14T10:00:00Z", "2026-04-14T10:01:00Z", &seconds), "~1m");
}

#[test]
fn duration_backwards_is_unknown() {
    assert_eq!(compute_duration("2026-04-14T10:05:00Z", "2026-04-14T10:00:00Z", &seconds), "-");
}

#[test]
fn duration_fractional_seconds() {
    assert_eq!(
        compute_duration("2026-04-14T10:00:00.250Z", "2026-04-14T10:00:09.999999Z", &seconds),
        "~9s"
    );
}

#[test]
fn duration_without_clock_is_unknown() {
    assert_eq!(compute_duration("2026-04-14", "2026-04-14T10:00:00Z", &seconds), "-");
    assert_eq!(compute_duration("2026-04-14T10:00Z", "2026-04-14T10:00:00Z", &seconds), "-");
    assert_eq!(compute_duration("2026-04-14Tx:00:00Z", "2026-04-14T10:00:00Z", &seconds), "-");
}

#[test]
fn duration_hours_count_as_minutes() {
    assert_eq!(compute_duration("2026-04-14T08:00:00Z", "2026-04-14T10:30:00Z", &seconds), "~150m");
    assert_eq!(compute_duration("2026-04-14T+08:00:00Z", "2026-04-14T10:30:00Z", &seconds), "~150m");
}

#[test]
fn duration_across_midnight() {
    assert_eq!(compute_duration("2026-04-14T23:59:00Z", "2026-04-15T00:01:00Z", &seconds), "~2m");
}

#[test]
fn duration_across_month_and_leap_day() {
    assert_eq!(compute_duration("2024-02-28T23:00:00Z", "2024-03-01T00:00:00Z", &seconds), "~1500m");
    assert_eq!(compute_duration("2023-02-28T23:00:00Z", "2023-03-01T00:00:00Z", &seconds), "~60m");
    assert_eq!(compute_duration("2025-12-31T23:59:50Z", "2026-01-01T00:00:10Z", &seconds), "~20s");
}

#[test]
fn duration_needs_a_readable_date() {
    assert_eq!(compute_duration("T10:00:00Z", "T10:05:00Z", &seconds), "-");
    assert_eq!(compute_duration("2026-13-01T10:00:00Z", "2026-04-14T10:05:00Z", &seconds), "-");
    assert_eq!(compute_duration("2026-04-14T10:00:00Z", "2026-04-13T10:05:00Z", &seconds), "-");
}
