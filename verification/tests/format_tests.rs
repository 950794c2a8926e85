use explorer::format::{fmt_modified, fmt_size, fmt_system_time, fmt_unix_pub, Stamp};

/// What the size column shows, computed with floating point.
fn float_size(b: u64) -> String {
    const KB: u64 = 1_024;
    const MB: u64 = KB * 1_024;
    const GB: u64 = MB * 1_024;
    if b >= GB {
        format!("{:.1} GB", b as f64 / GB as f64)
    } else if b >= MB {
        format!("{:.1} MB", b as f64 / MB as f64)
    } else if b >= KB {
        format!("{:.1} KB", b as f64 / KB as f64)
    } else {
        format!("{b} B")
    }
}

#[test]
fn fmt_size_bytes() {
    assert_eq!(fmt_size(0), "0 B");
    assert_eq!(fmt_size(1), "1 B");
    assert_eq!(fmt_size(1023), "1023 B");
}

#[test]
fn fmt_size_units() {
    assert_eq!(fmt_size(1024), "1.0 KB");
    assert_eq!(fmt_size(1536), "1.5 KB");
    assert_eq!(fmt_size(1024 * 1024), "1.0 MB");
    assert_eq!(fmt_size(5 * 1024 * 1024 * 1024), "5.0 GB");
    assert_eq!(fmt_size(1024 * 1024 - 1), "1024.0 KB");
}

#[test]
fn fmt_size_ties_round_to_even() {
    // 1.25 KB and 1.75 KB are exact halves of a tenth
    assert_eq!(fmt_size(1280), float_size(1280));
    assert_eq!(fmt_size(1792), float_size(1792));
    assert_eq!(fmt_size(1280), "1.2 KB");
    assert_eq!(fmt_size(1792), "1.8 KB");
}

#[test]
fn fmt_size_matches_float_formatting() {
    let mut b: u64 = 0;
    while b < 3_000_000 {
        assert_eq!(fmt_size(b), float_size(b), "at {b}");
        b += 7;
    }
    let mut x: u64 = 1;
    for _ in 0..2000 {
        x = x.wrapping_mul(6364136223846793005).wrapping_add(1442695040888963407);
        for b in [x, x >> 7, x >> 20, x >> 33, x >> 40] {
            assert_eq!(fmt_size(b), float_size(b), "at {b}");
        }
    }
    for b in [u64::MAX, u64::MAX - 1, 1 << 53, (1 << 53) + 1, (1 << 54) + 3, (1 << 63) + 1025] {
        assert_eq!(fmt_size(b), float_size(b), "at {b}");
    }
}

#[test]
fn fmt_unix_pub_dates() {
    assert_eq!(fmt_unix_pub(0), "1970-01-01 00:00");
    assert_eq!(fmt_unix_pub(86_399), "1970-01-01 23:59");
    assert_eq!(fmt_unix_pub(951_782_400), "2000-02-29 00:00");
    assert_eq!(fmt_unix_pub(1_700_000_000), "2023-11-14 22:13");
    assert_eq!(fmt_unix_pub(4_102_444_800), "2100-01-01 00:00");
}

#[test]
fn fmt_unix_pub_month_boundaries() {
    // 2024-03-01 00:00 UTC and the minute before it
    assert_eq!(fmt_unix_pub(1_709_251_200), "2024-03-01 00:00");
    assert_eq!(fmt_unix_pub(1_709_251_140), "2024-02-29 23:59");
    assert_eq!(fmt_unix_pub(1_735_689_599), "2024-12-31 23:59");
}

#[test]
fn fmt_system_time_cases() {
    assert_eq!(fmt_system_time(None), "\u{2014}");
    assert_eq!(fmt_system_time(Some(Stamp::BeforeEpoch)), "1970-01-01 00:00");
    assert_eq!(fmt_system_time(Some(Stamp::Secs(60))), "1970-01-01 00:01");
}

#[test]
fn fmt_modified_cases() {
    assert_eq!(fmt_modified(None), "");
    assert_eq!(fmt_modified(Some(Stamp::BeforeEpoch)), "");
    assert_eq!(fmt_modified(Some(Stamp::Secs(0))), "1970-01-01 00:00");
}

#[test]
fn stamp_text_drops_seconds_and_follows_time() {
    assert_eq!(fmt_unix_pub(59), fmt_unix_pub(0));
    assert_eq!(fmt_unix_pub(86_399), "1970-01-01 23:59");
    assert!(fmt_unix_pub(59) < fmt_unix_pub(60));
    assert!(fmt_unix_pub(86_399) < fmt_unix_pub(86_400));
    assert!(fmt_unix_pub(951_782_399) < fmt_unix_pub(951_782_400));
    assert_eq!(fmt_unix_pub(951_782_400), "2000-02-29 00:00");
    assert_eq!(fmt_unix_pub(253_402_300_799), "9999-12-31 23:59");
    let mut prev = fmt_unix_pub(0);
    let mut s: u64 = 0;
    while s < 4_000_000_000 {
        s += 7_777_777;
        let cur = fmt_unix_pub(s);
        assert!(prev < cur, "{prev} !< {cur}");
        prev = cur;
    }
}

#[test]
fn stamp_dates_follow_the_gregorian_calendar() {
    assert_eq!(fmt_unix_pub(0), "1970-01-01 00:00");
    assert_eq!(fmt_unix_pub(4_107_456_000), "2100-02-28 00:00");
    assert_eq!(fmt_unix_pub(4_107_456_000 + 86_400), "2100-03-01 00:00");
    assert_eq!(fmt_unix_pub(13_574_563_200), "2400-02-29 00:00");
    assert_eq!(fmt_unix_pub(13_574_563_200 + 86_400), "2400-03-01 00:00");
    assert_eq!(fmt_unix_pub(1_735_603_200), "2024-12-31 00:00");
    assert_eq!(fmt_unix_pub(1_735_603_200 + 86_400), "2025-01-01 00:00");
}
