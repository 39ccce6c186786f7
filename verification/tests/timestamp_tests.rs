use lafufu::behavior::temporal::TemporalWindows;
use lafufu::explanation::engine::window_since;
use lafufu::normalization::parse_timestamp;
use lafufu::normalization::timestamp::parse_timestamp_in_year;
use lafufu::time::Timestamp;

fn as_chrono(t: Timestamp) -> chrono::DateTime<chrono::Utc> {
    chrono::DateTime::from_timestamp(t.secs, t.nanos).unwrap()
}

#[test]
fn test_parse_rfc3339() {
    let ts = parse_timestamp("2026-07-26T18:00:00Z").unwrap();
    assert_eq!(as_chrono(ts).format("%Y-%m-%d %H:%M:%S").to_string(), "2026-07-26 18:00:00");
}

#[test]
fn test_parse_syslog() {
    let ts = parse_timestamp("Jul 26 18:00:00").unwrap();
    assert_eq!(as_chrono(ts).format("%b %d %H:%M:%S").to_string(), "Jul 26 18:00:00");
}

#[test]
fn test_parse_epoch() {
    let ts = parse_timestamp("1719829200").unwrap();
    assert_eq!(ts.secs, 1719829200);
}

#[test]
fn padding_does_not_change_a_reading() {
    assert_eq!(parse_timestamp("  2026-07-26T18:00:00Z\n"), parse_timestamp("2026-07-26T18:00:00Z"));
    assert_eq!(parse_timestamp_in_year(" Jul 26 18:00:00 ", "2024"), parse_timestamp_in_year("Jul 26 18:00:00", "2024"));
}

#[test]
fn timestamp_formats_in_order() {
    assert_eq!(parse_timestamp("2026-07-26T18:00:00+02:00").unwrap().secs, 1_785_081_600);
    assert_eq!(parse_timestamp("2026-07-26 18:00:00.250").unwrap(), Timestamp::new(1_785_088_800, 250_000_000));
    assert_eq!(parse_timestamp("26/Jul/2026:18:00:00 +0000").unwrap().secs, 1_785_088_800);
    assert_eq!(parse_timestamp_in_year("Jul  6 08:00:00", "2024").unwrap().secs, 1_720_252_800);
    assert_eq!(parse_timestamp("1719829200123").unwrap(), Timestamp::new(1_719_829_200, 123_000_000));
    assert_eq!(parse_timestamp(""), None);
    assert_eq!(parse_timestamp("   "), None);
    assert_eq!(parse_timestamp("-5"), None);
    assert_eq!(parse_timestamp("not a time"), None);
}

#[test]
fn temporal_windows_nest() {
    let w = TemporalWindows::default();
    assert_eq!((w.short_term_hours, w.medium_term_days, w.long_term_days), (72, 30, 365));
    let now = Timestamp::new(1_785_088_800, 0);
    let short = w.short_term_since(now);
    let medium = w.medium_term_since(now);
    let long = w.long_term_since(now);
    assert_eq!(short, Timestamp::new(1_785_088_800 - 72 * 3600, 0));
    assert_eq!(medium, Timestamp::new(1_785_088_800 - 30 * 86400, 0));
    assert_eq!(long, Timestamp::new(1_785_088_800 - 365 * 86400, 0));
    assert!(short.at_or_after(&medium));
    assert!(medium.at_or_after(&long));
}

#[test]
fn leaving_a_leap_second_drops_it() {
    // 23:59:60.5 on 2016-12-31, as chrono writes a leap second.
    let leap = Timestamp::new(1_483_228_799, 1_500_000_000);
    let w = TemporalWindows { short_term_hours: 1, medium_term_days: 1, long_term_days: 1 };
    assert_eq!(w.short_term_since(leap), Timestamp::new(1_483_228_800 - 3600, 500_000_000));
}

#[test]
fn report_windows() {
    let now = Timestamp::new(1_785_088_800, 0);
    assert_eq!(window_since("12h", now), Some(Timestamp::new(1_785_088_800 - 12 * 3600, 0)));
    assert_eq!(window_since("3d", now), Some(Timestamp::new(1_785_088_800 - 3 * 86400, 0)));
    assert_eq!(window_since("xh", now), Some(Timestamp::new(1_785_088_800 - 24 * 3600, 0)));
    assert_eq!(window_since("xd", now), Some(Timestamp::new(1_785_088_800 - 7 * 86400, 0)));
    assert_eq!(window_since("1w", now), Some(Timestamp::new(1_785_088_800 - 24 * 3600, 0)));
    assert_eq!(window_since("-2h", now), Some(Timestamp::new(1_785_088_800 + 2 * 3600, 0)));
    assert_eq!(window_since("9223372036854775807h", now), None);
    assert_eq!(window_since("100000000d", now), None);
}
