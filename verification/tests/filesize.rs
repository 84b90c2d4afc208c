use rich_rs::filesize::{format_grouped_u64, pick_unit_and_suffix, small_size_text};

const SUFFIXES: [&str; 9] = ["bytes", "kB", "MB", "GB", "TB", "PB", "EB", "ZB", "YB"];

#[test]
fn test_pick_unit_and_suffix_kilobytes() {
    assert_eq!(pick_unit_and_suffix(1500, &SUFFIXES, 1000), (1000, "kB"));
}

#[test]
fn test_pick_unit_and_suffix_largest_reached() {
    assert_eq!(pick_unit_and_suffix(999, &SUFFIXES, 1000), (1, "bytes"));
    assert_eq!(pick_unit_and_suffix(1_000_000, &SUFFIXES, 1000), (1_000_000, "MB"));
    assert_eq!(pick_unit_and_suffix(u64::MAX, &SUFFIXES, 1000), (1_000_000_000_000_000_000, "EB"));
}

#[test]
fn test_pick_unit_and_suffix_degenerate() {
    assert_eq!(pick_unit_and_suffix(5000, &[], 1000), (1, ""));
    assert_eq!(pick_unit_and_suffix(5000, &SUFFIXES, 1), (1, ""));
    assert_eq!(pick_unit_and_suffix(5000, &["only"], 1000), (1, "only"));
}

#[test]
fn test_format_grouped() {
    assert_eq!(format_grouped_u64(0, ","), "0");
    assert_eq!(format_grouped_u64(999, ","), "999");
    assert_eq!(format_grouped_u64(1000, ","), "1,000");
    assert_eq!(format_grouped_u64(1234567, ","), "1,234,567");
    assert_eq!(format_grouped_u64(1002003, " "), "1 002 003");
}

#[test]
fn test_format_grouped_without_separator_is_decimal() {
    assert_eq!(format_grouped_u64(1002003, ""), "1002003");
    assert_eq!(format_grouped_u64(u64::MAX, ""), u64::MAX.to_string());
}

#[test]
fn test_small_size_text() {
    assert_eq!(small_size_text(1, ","), Some("1 byte".to_string()));
    assert_eq!(small_size_text(0, ","), Some("0 bytes".to_string()));
    assert_eq!(small_size_text(999, ","), Some("999 bytes".to_string()));
    assert_eq!(small_size_text(1000, ","), None);
}
