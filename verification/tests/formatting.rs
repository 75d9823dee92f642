use helios::format::calculate_cpu_freq;
use helios::format::format_bytes;
use helios::format::format_percent;
use helios::format::format_uptime;
use helios::text::str_equal;
use helios::text::str_starts_with;
use helios::text::trim_str;
use helios::text::u64_to_string;

#[test]
fn bytes_zero() {
    assert_eq!(format_bytes(0), "0 B");
}

#[test]
fn bytes_one_kib() {
    assert_eq!(format_bytes(1024), "1.0 KiB");
}

#[test]
fn bytes_one_and_a_half_mib() {
    assert_eq!(format_bytes(1_572_864), "1.5 MiB");
}

#[test]
fn bytes_below_base() {
    assert_eq!(format_bytes(512), "512 B");
    assert_eq!(format_bytes(1023), "1023 B");
}

#[test]
fn bytes_rounding() {
    assert_eq!(format_bytes(1536), "1.5 KiB");
    assert_eq!(format_bytes(1024 * 1024 - 1), "1024.0 KiB");
    assert_eq!(format_bytes(7 * 1024 * 1024 * 1024), "7.0 GiB");
    assert_eq!(format_bytes(u64::MAX), "16.0 EiB");
}

#[test]
fn uptime_seconds_only() {
    assert_eq!(format_uptime(59), "59 seconds");
    assert_eq!(format_uptime(1), "1 second");
    assert_eq!(format_uptime(0), "0 seconds");
}

#[test]
fn uptime_one_minute() {
    assert_eq!(format_uptime(60), "1 minute, 0 seconds");
}

#[test]
fn uptime_one_hour() {
    assert_eq!(format_uptime(3661), "1 hour, 1 minute");
}

#[test]
fn uptime_one_day() {
    assert_eq!(format_uptime(90061), "1 day, 1 hour, 1 minute");
}

#[test]
fn uptime_plurals() {
    assert_eq!(format_uptime(86400), "1 day, 0 hours, 0 minutes");
    assert_eq!(format_uptime(2 * 86400 + 3 * 3600 + 12 * 60), "2 days, 3 hours, 12 minutes");
    assert_eq!(format_uptime(2 * 60 + 2), "2 minutes, 2 seconds");
}

#[test]
fn cpu_freq_mhz() {
    assert_eq!(calculate_cpu_freq(800), "800 MHz");
    assert_eq!(calculate_cpu_freq(999), "999 MHz");
}

#[test]
fn cpu_freq_whole_ghz() {
    assert_eq!(calculate_cpu_freq(4000), "4 GHz");
    assert_eq!(calculate_cpu_freq(1000), "1 GHz");
}

#[test]
fn cpu_freq_fractional_ghz() {
    assert_eq!(calculate_cpu_freq(4200), "4.20 GHz");
    assert_eq!(calculate_cpu_freq(1001), "1.00 GHz");
    assert_eq!(calculate_cpu_freq(2450), "2.45 GHz");
    assert_eq!(calculate_cpu_freq(4205), "4.21 GHz");
}

#[test]
fn percent_basic() {
    assert_eq!(format_percent(0, 0), "0.0");
    assert_eq!(format_percent(0, 100), "0.0");
    assert_eq!(format_percent(50, 100), "50.0");
    assert_eq!(format_percent(425, 1000), "42.5");
    assert_eq!(format_percent(100, 100), "100.0");
    assert_eq!(format_percent(1, 3), "33.3");
    assert_eq!(format_percent(2, 3), "66.7");
}

#[test]
fn decimal_rendering() {
    assert_eq!(u64_to_string(0), "0");
    assert_eq!(u64_to_string(7), "7");
    assert_eq!(u64_to_string(105), "105");
    assert_eq!(u64_to_string(u64::MAX), "18446744073709551615");
}

#[test]
fn string_helpers() {
    assert!(str_starts_with("10.16.1", "10.16"));
    assert!(!str_starts_with("10.1", "10.16"));
    assert!(str_equal("abc", "abc"));
    assert!(!str_equal("abc", "abd"));
    assert_eq!(trim_str("  hello world \n"), "hello world");
    assert_eq!(trim_str("\t\t"), "");
    assert_eq!(trim_str("x"), "x");
}
