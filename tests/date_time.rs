use blame_lsp::date_time::humanize;

const NOW: i64 = 1_700_000_000;

#[test]
fn thirty_seconds_ago() {
    assert_eq!(humanize(NOW - 30, NOW), "30s ago");
}

#[test]
fn eight_days_ago_is_a_date() {
    let text = humanize(NOW - 8 * 86400, NOW);
    assert!(!text.ends_with("ago"));
    assert!(!text.starts_with("in "));
    assert_eq!(text, " 6-Nov-2023");
}

#[test]
fn ten_seconds_ahead() {
    assert_eq!(humanize(NOW + 10, NOW), "in 10s");
}

#[test]
fn now_is_past() {
    assert_eq!(humanize(NOW, NOW), "0s ago");
}

#[test]
fn exactly_a_week_is_relative() {
    assert_eq!(humanize(NOW - 604800, NOW), "7days ago");
}

#[test]
fn just_over_a_week_is_a_date() {
    assert_eq!(humanize(NOW - 604801, NOW), " 7-Nov-2023");
}

#[test]
fn hours_and_minutes() {
    assert_eq!(humanize(NOW - 3723, NOW), "1h 2m 3s ago");
}

#[test]
fn far_future_is_a_date() {
    assert_eq!(humanize(NOW + 30 * 86400, NOW), "14-Dec-2023");
}
