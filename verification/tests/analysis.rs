use ecliptica_data_analyzer::analysis::{format_duration, format_seconds, normalized_name};

#[test]
fn standstill_duration_is_displayed_as_total_seconds() {
    assert_eq!(format_seconds(12), "12");
    assert_eq!(format_seconds(74), "74");
}

#[test]
fn names_use_unicode_nfkc_casefold_like_comparison() {
    assert_eq!(normalized_name("  Ａlice "), normalized_name("alice"));
}

#[test]
fn durations_are_shown_as_minutes_and_seconds() {
    assert_eq!(format_duration(0), "00:00");
    assert_eq!(format_duration(75), "01:15");
    assert_eq!(format_duration(3725), "1:02:05");
}
