use corgos::boot_config::{parse_config, parse_number, BootLoaderConfig, LogDevice, LogLevel};

fn revision_of(text: &[u8]) -> [u8; 64] {
    let mut r = [0u8; 64];
    r[..text.len()].copy_from_slice(text);
    r
}

#[test]
fn defaults_without_settings() {
    let config = parse_config(b"").unwrap();
    assert_eq!(config, BootLoaderConfig::default());
    assert_eq!(config.log_device, LogDevice::StdOut);
    assert_eq!(config.log_level, LogLevel::Trace);
    assert!(!config.wait_for_start);
    assert_eq!(config.watchdog_seconds, None);
}

#[test]
fn all_settings() {
    let text = b"log_device = com1\nlog_level = warn\nwait_for_start = yes\nlog_source_path = true\nwalk_page_tables = on\nwatchdog_seconds = 30\nrevision = \"abc123 fix\"\n# later wins\nlog_device = \"pl011@9000000\"\n";
    let config = parse_config(text).unwrap();
    assert_eq!(config.log_device, LogDevice::Pl011(0x900_0000));
    assert_eq!(config.log_level, LogLevel::Warn);
    assert!(config.wait_for_start);
    assert!(config.log_source_path);
    assert!(config.walk_page_tables);
    assert_eq!(config.watchdog_seconds, Some(30));
    assert_eq!(config.revision, revision_of(b"abc123 fix"));
}

#[test]
fn bad_uart_address_falls_back_to_console() {
    let config = parse_config(b"log_device = com2\nlog_device = \"pl011@xyz\"").unwrap();
    assert_eq!(config.log_device, LogDevice::StdOut);
    let config = parse_config(b"log_device = \"pl011@+ff\"").unwrap();
    assert_eq!(config.log_device, LogDevice::Pl011(0xff));
    let config = parse_config(b"log_device = \"pl011@1ffffffffffffffff\"").unwrap();
    assert_eq!(config.log_device, LogDevice::StdOut);
    let config = parse_config(b"log_device = null\nlog_device = serial").unwrap();
    assert_eq!(config.log_device, LogDevice::Null);
}

#[test]
fn unknown_values_change_nothing() {
    let config =
        parse_config(b"log_level = loud\nwatchdog_seconds = 99999999999999999999999\nsome_key = 1").unwrap();
    assert_eq!(config, BootLoaderConfig::default());
    let config = parse_config(b"wait_for_start = yes\nwait_for_start = no").unwrap();
    assert!(!config.wait_for_start);
}

#[test]
fn parsing_stops_at_the_first_error() {
    let config = parse_config(b"log_level = info\n= oops\nlog_level = warn\n").unwrap();
    assert_eq!(config.log_level, LogLevel::Info);
}

#[test]
fn long_revision_is_cut() {
    let long = [b'r'; 80];
    let mut text = b"revision = ".to_vec();
    text.extend_from_slice(&long);
    let config = parse_config(&text).unwrap();
    assert_eq!(config.revision, [b'r'; 64]);
}

#[test]
fn numbers_as_rust_reads_them() {
    assert_eq!(parse_number(b"123", 0, 10, u64::MAX), Some(123));
    assert_eq!(parse_number(b"+7", 0, 10, u64::MAX), Some(7));
    assert_eq!(parse_number(b"+", 0, 10, u64::MAX), None);
    assert_eq!(parse_number(b"", 0, 10, u64::MAX), None);
    assert_eq!(parse_number(b"-1", 0, 10, u64::MAX), None);
    assert_eq!(parse_number(b"1a", 0, 10, u64::MAX), None);
    assert_eq!(parse_number(b"x=DeadBeef", 2, 16, u64::MAX), Some(0xdead_beef));
    assert_eq!(parse_number(b"ffffffffffffffff", 0, 16, u64::MAX), Some(u64::MAX));
    assert_eq!(parse_number(b"10000000000000000", 0, 16, u64::MAX), None);
    assert_eq!(parse_number(b"256", 0, 10, 255), None);
    assert_eq!(parse_number(b"255", 0, 10, 255), Some(255));
}

#[test]
fn revision_text_stops_at_zero() {
    let config = parse_config(b"revision = \"abc 12\"").unwrap();
    assert_eq!(config.revision_bytes(), b"abc 12");
    assert_eq!(BootLoaderConfig::default().revision_bytes(), b"");
    let long = parse_config(&[b"revision = ".as_slice(), &[b'z'; 70]].concat()).unwrap();
    assert_eq!(long.revision_bytes(), &[b'z'; 64][..]);
}
