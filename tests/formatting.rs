use pulga::bytes::pretty_bytes;
use pulga::uptime::get_uptime;

#[test]
fn bytes_examples() {
    assert_eq!(pretty_bytes(1536), "1.50 kB");
    assert_eq!(pretty_bytes(0), "0 B");
    assert_eq!(pretty_bytes(-2048), "-2.00 kB");
}

#[test]
fn bytes_small_counts_stay_in_bytes() {
    assert_eq!(pretty_bytes(1), "1.00 B");
    assert_eq!(pretty_bytes(1023), "1023.00 B");
    assert_eq!(pretty_bytes(1024), "1.00 kB");
}

#[test]
fn bytes_each_unit() {
    assert_eq!(pretty_bytes(1048576), "1.00 MB");
    assert_eq!(pretty_bytes(3 * 1073741824), "3.00 GB");
    assert_eq!(pretty_bytes(1099511627776), "1.00 TB");
}

#[test]
fn bytes_clamped_at_terabytes() {
    assert_eq!(pretty_bytes(1024 * 1099511627776), "1024.00 TB");
    assert_eq!(pretty_bytes(5 * 1099511627776 + 549755813888), "5.50 TB");
}

#[test]
fn bytes_negative_mirrors_magnitude() {
    for m in [1i128, 1023, 1536, 1048576, 1099511627776, 7_000_000_000_000] {
        assert_eq!(pretty_bytes(-m), format!("-{}", pretty_bytes(m)));
    }
}

#[test]
fn bytes_extreme_values() {
    assert_eq!(pretty_bytes(i128::MAX), "154742504910672534362390528.00 TB");
    assert_eq!(pretty_bytes(i128::MIN), "-154742504910672534362390528.00 TB");
}

#[test]
fn bytes_rounding_matches_float_formatting() {
    let thresholds = [1i128, 1024, 1048576, 1073741824, 1099511627776];
    let units = ["B", "kB", "MB", "GB", "TB"];
    let samples = [
        1i128, 5, 999, 1029, 1034, 1126, 1152, 1408, 1664, 1920, 2560, 10_000, 123_456, 1_000_000,
        5_242_880, 987_654_321, 4_294_967_296, 16_000_000_000, 2_199_023_255_552,
        9_007_199_254_740_991,
    ];
    for n in samples {
        let mut e = 0;
        while e < 4 && n >= thresholds[e + 1] {
            e += 1;
        }
        let expected = format!("{:.2} {}", n as f64 / 1024f64.powi(e as i32), units[e]);
        assert_eq!(pretty_bytes(n), expected, "for {}", n);
    }
}

#[test]
fn bytes_is_deterministic() {
    assert_eq!(pretty_bytes(123_456_789), pretty_bytes(123_456_789));
    assert_eq!(get_uptime(98_765_432), get_uptime(98_765_432));
}

#[test]
fn uptime_examples() {
    assert_eq!(get_uptime(0), "");
    assert_eq!(get_uptime(100), "1 second");
    assert_eq!(get_uptime(6000), "1 minute");
    assert_eq!(get_uptime(360000), "1 hour");
    assert_eq!(get_uptime(2 * 86400 * 100), "2 days");
}

#[test]
fn uptime_drops_fractions_of_a_second() {
    assert_eq!(get_uptime(99), "");
    assert_eq!(get_uptime(199), "1 second");
}

#[test]
fn uptime_all_units() {
    let secs = 31536000 + 2 * 2592000 + 3 * 86400 + 4 * 3600 + 5 * 60 + 6;
    assert_eq!(
        get_uptime(secs * 100),
        "1 year 2 months 3 days 4 hours 5 minutes 6 seconds"
    );
}

#[test]
fn uptime_skips_zero_units() {
    let secs = 2 * 31536000 + 3600 + 1;
    assert_eq!(get_uptime(secs * 100), "2 years 1 hour 1 second");
    assert_eq!(get_uptime(2592000 * 100), "1 month");
}
