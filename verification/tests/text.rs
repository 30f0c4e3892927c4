use yggdre::clock::{backup_path, backup_path_at, nanos_or_zero, secs_or_zero, unix_timestamp, unix_timestamp_nanos};
use yggdre::text::{decimal_string, parse_u32_str, trim_str};

#[test]
fn trim_removes_unicode_white_space() {
    assert_eq!(trim_str("  \t value \n"), "value");
    assert_eq!(trim_str("\u{a0}\u{3000}x y\u{2029}"), "x y");
    assert_eq!(trim_str("   "), "");
    assert_eq!(trim_str(""), "");
}

#[test]
fn decimal_writes_numbers() {
    assert_eq!(decimal_string(0), "0");
    assert_eq!(decimal_string(1700000000), "1700000000");
    assert_eq!(decimal_string(u64::MAX), "18446744073709551615");
}

#[test]
fn parse_u32_reads_like_std() {
    assert_eq!(parse_u32_str("123"), Some(123));
    assert_eq!(parse_u32_str("+7"), Some(7));
    assert_eq!(parse_u32_str("4294967295"), Some(u32::MAX));
    assert_eq!(parse_u32_str("4294967296"), None);
    assert_eq!(parse_u32_str(""), None);
    assert_eq!(parse_u32_str("+"), None);
    assert_eq!(parse_u32_str("-1"), None);
    assert_eq!(parse_u32_str("12a"), None);
    for text in ["0", "00012", "99999", "+0"] {
        assert_eq!(parse_u32_str(text), text.parse::<u32>().ok());
    }
}

#[test]
fn backup_path_at_appends_marker_and_time() {
    assert_eq!(
        backup_path_at("/etc/yggdrasil.conf", 1700000000),
        "/etc/yggdrasil.conf.yggdre-backup.1700000000"
    );
}

#[test]
fn backup_path_uses_current_time() {
    let before = unix_timestamp();
    let path = backup_path("/etc/yggdrasil.conf");
    let after = unix_timestamp();
    let stamp: u64 = path
        .strip_prefix("/etc/yggdrasil.conf.yggdre-backup.")
        .expect("marker")
        .parse()
        .expect("number");
    assert!(before <= stamp && stamp <= after);
    assert!(before > 1_600_000_000);
    assert!(unix_timestamp_nanos() > 1_600_000_000u128 * 1_000_000_000);
}

#[test]
fn clock_readings_before_the_epoch_count_as_zero() {
    assert_eq!(secs_or_zero(Ok(1_700_000_000)), 1_700_000_000);
    assert_eq!(secs_or_zero(Err(())), 0);
    assert_eq!(nanos_or_zero(Ok(1_700_000_000_123_456_789)), 1_700_000_000_123_456_789);
    assert_eq!(nanos_or_zero(Err(())), 0);
}
