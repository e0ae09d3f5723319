use toss::time::{format_last_tossed, format_last_tossed_at, now_rfc3339, now_stamp};

#[test]
fn formats_missing_last_tossed() {
    assert_eq!(format_last_tossed(None), "<never>");
}

#[test]
fn leaves_invalid_timestamp_unchanged() {
    assert_eq!(format_last_tossed(Some("not-a-timestamp")), "not-a-timestamp");
}

#[test]
fn formats_valid_timestamp_with_days_ago_suffix() {
    let formatted = format_last_tossed(Some("1970-01-01T00:00:00Z"));

    assert!(formatted.contains("1970-01-01T00:00:00Z"));
    assert!(formatted.contains("days ago"));
}

#[test]
fn counts_whole_days_to_the_given_time() {
    assert_eq!(format_last_tossed_at(Some("1970-01-01T00:00:00Z"), 86_400 * 3 + 5, 0), "1970-01-01T00:00:00Z (3 days ago)");
    assert_eq!(format_last_tossed_at(Some("1970-01-02T00:00:00Z"), 86_399, 0), "1970-01-02T00:00:00Z (0 days ago)");
    assert_eq!(format_last_tossed_at(Some("1970-01-01T01:00:00+01:00"), 86_400, 0), "1970-01-01T01:00:00+01:00 (1 days ago)");
    assert_eq!(format_last_tossed_at(None, 0, 0), "<never>");
}

#[test]
fn current_time_reads_back_as_a_timestamp() {
    let now = now_rfc3339().unwrap();
    assert!(format_last_tossed(Some(now.as_str())).ends_with("(0 days ago)"));
}

#[test]
fn a_fresh_stamp_names_the_clock_reading_and_is_zero_days_old() {
    let (secs, nanos, text) = now_stamp();
    let text = text.unwrap();
    assert!(text.ends_with('Z'));
    assert_eq!(format_last_tossed_at(Some(&text), secs, nanos), format!("{} (0 days ago)", text));
    assert_eq!(format_last_tossed_at(Some(&text), secs + 86_400, nanos), format!("{} (1 days ago)", text));
}
