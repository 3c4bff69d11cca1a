use acu_patches::platform::key_state_is_down;
use acu_patches::plugin::{console_accepts, format_log_line, make_version, PLUGIN_API_VERSION};

#[test]
fn plugin_api_version_is_0_9_1_0() {
    assert_eq!(PLUGIN_API_VERSION, make_version(0, 9, 1, 0));
    assert_eq!(PLUGIN_API_VERSION, 0x0009_0100);
}

#[test]
fn plugin_version_is_0_4_0_0() {
    assert_eq!(make_version(0, 4, 0, 0), 0x0004_0000);
}

#[test]
fn make_version_places_each_part_in_its_byte() {
    assert_eq!(make_version(1, 2, 3, 4), 0x0102_0304);
    assert_eq!(make_version(0, 0, 0, 0), 0);
    assert_eq!(make_version(0xff, 0xff, 0xff, 0xff), 0xffff_ffff);
    assert_eq!(make_version(0x12_3456_789a, 0, 0, 0), 0x12_3456_789a_00_0000);
}

#[test]
fn make_version_parts_read_back() {
    let v = make_version(7, 0xab, 0x01, 0xfe);
    assert_eq!(v >> 24, 7);
    assert_eq!((v >> 16) & 0xff, 0xab);
    assert_eq!((v >> 8) & 0xff, 0x01);
    assert_eq!(v & 0xff, 0xfe);
}

#[test]
fn make_version_order_follows_parts() {
    assert!(make_version(0, 9, 1, 0) < make_version(0, 10, 0, 0));
    assert!(make_version(0, 9, 1, 0) > make_version(0, 9, 0, 255));
    assert!(make_version(1, 0, 0, 0) > make_version(0, 255, 255, 255));
    assert!(make_version(0, 4, 0, 0) < make_version(0, 4, 0, 1));
}

#[test]
fn make_version_parts_that_do_not_fit_overlap() {
    // A minor part of 0x100 spills into the major part's byte.
    assert_eq!(make_version(0, 0x100, 0, 0), 0x0100_0000);
    assert_eq!(make_version(1, 0x100, 0, 0), 0x0100_0000);
    // Bits shifted past the top are lost.
    assert_eq!(make_version(1 << 40, 0, 0, 0), 0);
}

#[test]
fn log_line_with_package_name() {
    let line = format_log_line(Some("acu_patches"), "INFO", "Game ready! Applying patches...");
    assert_eq!(line, "[acu_patches][INFO] Game ready! Applying patches...");
}

#[test]
fn log_line_without_package_name() {
    let line = format_log_line(None, "ERROR", "failed to hook function");
    assert_eq!(line, "[???][ERROR] failed to hook function");
}

#[test]
fn log_line_with_empty_message() {
    assert_eq!(format_log_line(Some(""), "", ""), "[][] ");
}

#[test]
fn console_accepts_text_without_nul() {
    assert!(console_accepts(""));
    assert!(console_accepts("[acu_patches][INFO] ok"));
    assert!(console_accepts("ünïcödé ✓"));
}

#[test]
fn console_refuses_text_with_nul() {
    assert!(!console_accepts("\0"));
    assert!(!console_accepts("abc\0def"));
    assert!(!console_accepts("end\0"));
}

#[test]
fn key_state_high_bit_means_down() {
    assert!(key_state_is_down(i16::MIN));
    assert!(key_state_is_down(-32767));
    assert!(key_state_is_down(-1));
    assert!(!key_state_is_down(0));
    assert!(!key_state_is_down(1));
    assert!(!key_state_is_down(i16::MAX));
}
