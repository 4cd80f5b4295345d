use syncthing_status::format::{format_bytes, format_uptime, short_id};

#[test]
fn zero_bytes() {
    assert_eq!(format_bytes(0), "0 B");
}

#[test]
fn small_byte_counts() {
    assert_eq!(format_bytes(5), "5.00 B");
    assert_eq!(format_bytes(9), "9.00 B");
    assert_eq!(format_bytes(10), "10.0 B");
    assert_eq!(format_bytes(1023), "1023.0 B");
}

#[test]
fn unit_boundaries() {
    assert_eq!(format_bytes(1024), "1.00 KB");
    assert_eq!(format_bytes(1536), "1.50 KB");
    assert_eq!(format_bytes(10240), "10.0 KB");
    assert_eq!(format_bytes(204800), "200.0 KB");
    assert_eq!(format_bytes(1048576), "1.00 MB");
    assert_eq!(format_bytes(1073741824), "1.00 GB");
    assert_eq!(format_bytes(1099511627776), "1.00 TB");
}

#[test]
fn stops_at_terabytes() {
    assert_eq!(format_bytes(1024 * 1099511627776), "1024.0 TB");
    assert_eq!(format_bytes(i64::MAX), "8388608.0 TB");
}

#[test]
fn rounding_ties_go_to_even() {
    // 1152 bytes is exactly 1.125 KB
    assert_eq!(format_bytes(1152), "1.12 KB");
    // 1126 bytes is 1.0996... KB
    assert_eq!(format_bytes(1126), "1.10 KB");
}

#[test]
fn rounding_can_reach_the_next_decade() {
    // 10235 bytes is 9.995... KB: below 10, so two decimals
    assert_eq!(format_bytes(10235), "10.00 KB");
}

#[test]
fn negative_byte_counts() {
    assert_eq!(format_bytes(-5), "-5.00 B");
    assert_eq!(format_bytes(-2048), "-2048.00 B");
}

#[test]
fn uptime_example() {
    assert_eq!(format_uptime(93784), "1d 2h 3m");
}

#[test]
fn uptime_edges() {
    assert_eq!(format_uptime(0), "0d 0h 0m");
    assert_eq!(format_uptime(59), "0d 0h 0m");
    assert_eq!(format_uptime(86399), "0d 23h 59m");
    assert_eq!(format_uptime(86400 * 400 + 3600 * 5 + 60 * 7 + 30), "400d 5h 7m");
}

#[test]
fn negative_uptime_truncates_towards_zero() {
    assert_eq!(format_uptime(-90), "0d 0h -1m");
    assert_eq!(format_uptime(-93784), "-1d -2h -3m");
}

#[test]
fn short_identity() {
    assert_eq!(short_id("MFZWI3D-BONSGYC-YLTMRWG"), "MFZWI3D");
    assert_eq!(short_id("ABCDEFG"), "ABCDEFG");
    assert_eq!(short_id("ABC"), "ABC");
    assert_eq!(short_id(""), "");
}
