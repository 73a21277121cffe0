//! Reading and showing times.

use gumicord::time::{continues, local_day_hm, parse_unix, GROUP_WINDOW_SECS};

#[test]
fn the_epoch_parses_to_zero() {
    assert_eq!(parse_unix("1970-01-01T00:00:00Z"), Some(0));
    assert_eq!(parse_unix("1970-01-01T00:00:00+00:00"), Some(0));
}

#[test]
fn offsets_shift_the_instant() {
    let base = parse_unix("2026-09-03T12:00:00+00:00").expect("読める");
    assert_eq!(parse_unix("2026-09-03T21:00:00+09:00"), Some(base), "same instant in JST");
    assert_eq!(parse_unix("2026-09-03T12:00:00Z"), Some(base), "Z means UTC");
}

#[test]
fn fractions_do_not_move_the_second() {
    assert_eq!(
        parse_unix("2026-09-03T12:00:00.789000+00:00"),
        parse_unix("2026-09-03T12:00:00+00:00")
    );
}

#[test]
fn an_hour_stays_an_hour() {
    let a = parse_unix("2026-09-03T12:00:00+00:00").expect("読める");
    let b = parse_unix("2026-09-03T13:00:00+00:00").expect("読める");
    assert_eq!(b - a, 3600);
}

#[test]
fn rubbish_is_rejected_not_guessed() {
    for bad in [
        "",
        "not a timestamp",
        "2026-09-03 12:00:00",
        "2026-13-01T00:00:00Z",
        "2026-09-03T25:00:00Z",
        "2026-09-03T12:00:00",
        "2026-09-03T12:00Z",
    ] {
        assert_eq!(parse_unix(bad), None, "{bad}");
    }
}

#[test]
fn a_day_is_a_day_in_any_zone() {
    // Exactly 24 hours apart is always the next local day, whatever the
    // machine's offset is.
    let a = parse_unix("2026-09-03T12:00:00+00:00").expect("読める");
    for offset in [-720, -1, 0, 330, 540, 840] {
        let (first, h, m) = local_day_hm(a, offset);
        let (second, _, _) = local_day_hm(a + 86_400, offset);
        assert_ne!(first, second);
        assert!(first.ends_with('日') && second.ends_with('日'));
        assert!(h < 24 && m < 60, "not a clock reading: {h}:{m}");
    }
}

#[test]
fn grouping_needs_the_same_day_and_a_short_gap() {
    assert!(continues("2026年9月3日", 1000, "2026年9月3日", 1000 + 6 * 60));
    assert!(
        !continues("2026年9月3日", 1000, "2026年9月3日", 1000 + 7 * 60),
        "the window ends at seven minutes"
    );
    assert!(
        !continues("2026年9月3日", 1000, "2026年9月4日", 1001),
        "a new day always breaks the run"
    );
    assert!(!continues("2026年9月3日", 1000, "", 1001), "no day, no run");
}

#[test]
fn a_known_instant_reads_as_its_day_and_hour() {
    assert_eq!(parse_unix("2026-09-03T12:34:56+00:00"), Some(1_788_438_896));
    let (day, h, m) = local_day_hm(1_788_438_896, 540);
    assert_eq!((day.as_str(), h, m), ("2026年9月3日", 21, 34));
    let (day, h, m) = local_day_hm(0, -60);
    assert_eq!((day.as_str(), h, m), ("1969年12月31日", 23, 0));
}

#[test]
fn leap_days_count() {
    let a = parse_unix("2024-02-28T00:00:00Z").unwrap();
    assert_eq!(parse_unix("2024-02-29T00:00:00Z"), Some(a + 86_400));
    assert_eq!(parse_unix("2024-03-01T00:00:00Z"), Some(a + 2 * 86_400));
    assert_eq!(local_day_hm(a + 86_400, 0).0, "2024年2月29日");
}

#[test]
fn the_window_is_seven_minutes() {
    assert_eq!(GROUP_WINDOW_SECS, 7 * 60);
    assert!(continues("日", 0, "日", GROUP_WINDOW_SECS - 1));
    assert!(!continues("日", 0, "日", GROUP_WINDOW_SECS));
}
