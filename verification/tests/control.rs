use rich_rs::control::{Control, escape_control_codes, strip_control_codes};


#[test]
fn test_bell() {
    let ctrl = Control::bell();
    assert!(!ctrl.is_empty());
}

#[test]
fn test_clear() {
    let ctrl = Control::clear();
    assert!(!ctrl.is_empty());
}

#[test]
fn test_show_cursor() {
    let show = Control::show_cursor(true);
    assert!(!show.is_empty());
    let hide = Control::show_cursor(false);
    assert!(!hide.is_empty());
}

#[test]
fn test_alt_screen() {
    let enable = Control::alt_screen(true);
    assert!(!enable.is_empty());
    let disable = Control::alt_screen(false);
    assert!(!disable.is_empty());
}

#[test]
fn test_title() {
    let ctrl = Control::title("Hello");
    assert!(!ctrl.is_empty());
}

#[test]
fn test_strip_control_codes() {
    assert_eq!(strip_control_codes("hello"), "hello");
    assert_eq!(strip_control_codes("he\x07llo"), "hello");
    assert_eq!(strip_control_codes("he\x08llo"), "hello");
    assert_eq!(strip_control_codes("he\x0Bllo"), "hello");
    assert_eq!(strip_control_codes("he\x0Cllo"), "hello");
    assert_eq!(strip_control_codes("he\rllo"), "hello");
    assert_eq!(strip_control_codes("\x07\x08\x0B\x0C\rhello"), "hello");
}

#[test]
fn test_escape_control_codes() {
    assert_eq!(escape_control_codes("hello"), "hello");
    assert_eq!(escape_control_codes("he\x07llo"), "he\\allo");
    assert_eq!(escape_control_codes("he\x08llo"), "he\\bllo");
    assert_eq!(escape_control_codes("he\x0Bllo"), "he\\vllo");
    assert_eq!(escape_control_codes("he\x0Cllo"), "he\\fllo");
    assert_eq!(escape_control_codes("he\rllo"), "he\\rllo");
}

#[test]
fn test_strip_control_codes_twice_is_once() {
    let once = strip_control_codes("a\x07b\rc\x08d");
    assert_eq!(once, "abcd");
    assert_eq!(strip_control_codes(&once), once);
}

#[test]
fn test_escape_control_codes_leaves_no_codes() {
    let escaped = escape_control_codes("x\x07y\x0bz\r");
    assert!(!escaped.chars().any(|c| matches!(c, '\x07' | '\x08' | '\x0b' | '\x0c' | '\r')));
    assert_eq!(escaped, "x\\ay\\vz\\r");
}

#[test]
fn stripping_escaped_text_changes_nothing() {
    let e = escape_control_codes("he\x07llo\r");
    assert_eq!(e, "he\\allo\\r");
    assert_eq!(strip_control_codes(&e), e);
    assert_eq!(escape_control_codes("plain"), "plain");
    assert_eq!(strip_control_codes("plain"), "plain");
}
