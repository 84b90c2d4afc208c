use rich_rs::console::Console;
use rich_rs::file_proxy::FileProxy;
use std::io::Write;


#[test]
fn test_file_proxy_basic_write() {
    let console = Console::capture();
    let inner = Vec::<u8>::new();
    let mut proxy = FileProxy::with_console(console, inner);

    proxy.write_all("Hello, World!\n".as_bytes()).unwrap();
    proxy.flush().unwrap();

    // The output goes to console, not inner
    let console_output = proxy.console().get_captured();
    assert!(console_output.contains("Hello"));
    assert!(console_output.contains("World"));
}

#[test]
fn test_file_proxy_line_buffering() {
    let console = Console::capture();
    let inner = Vec::<u8>::new();
    let mut proxy = FileProxy::with_console(console, inner);

    // Write without newline - should buffer
    proxy.write_all("Hello, ".as_bytes()).unwrap();
    assert!(proxy.console().get_captured().is_empty());

    // Write with newline - should flush buffer
    proxy.write_all("World!\n".as_bytes()).unwrap();
    let output = proxy.console().get_captured();
    assert!(output.contains("Hello"));
    assert!(output.contains("World"));
}

#[test]
fn test_file_proxy_ansi_decoding() {
    let console = Console::capture();
    let inner = Vec::<u8>::new();
    let mut proxy = FileProxy::with_console(console, inner);

    // Write text with ANSI bold
    proxy.write_all("\x1b[1mBold\x1b[0m Normal\n".as_bytes()).unwrap();

    let output = proxy.console().get_captured();
    assert!(output.contains("Bold"));
    assert!(output.contains("Normal"));
}

#[test]
fn test_file_proxy_multiple_lines() {
    let console = Console::capture();
    let inner = Vec::<u8>::new();
    let mut proxy = FileProxy::with_console(console, inner);

    proxy.write_all("Line 1\n".as_bytes()).unwrap();
    proxy.write_all("Line 2\n".as_bytes()).unwrap();
    proxy.write_all("Line 3\n".as_bytes()).unwrap();

    let output = proxy.console().get_captured();
    assert!(output.contains("Line 1"));
    assert!(output.contains("Line 2"));
    assert!(output.contains("Line 3"));
}

#[test]
fn test_file_proxy_flush_partial_line() {
    let console = Console::capture();
    let inner = Vec::<u8>::new();
    let mut proxy = FileProxy::with_console(console, inner);

    // Write without newline
    proxy.write_all("Partial".as_bytes()).unwrap();
    assert!(proxy.console().get_captured().is_empty());

    // Explicit flush should print the partial line
    proxy.flush().unwrap();
    let output = proxy.console().get_captured();
    assert!(output.contains("Partial"));
}

#[test]
fn test_file_proxy_inner_access() {
    let console = Console::capture();
    let inner = Vec::<u8>::new();
    let mut proxy = FileProxy::with_console(console, inner);

    // Inner should be accessible
    assert!(proxy.inner().is_empty());
    proxy.inner_mut().push(42);
    assert_eq!(proxy.inner().len(), 1);

    let inner = proxy.into_inner();
    assert_eq!(inner, vec![42]);
}

#[test]
fn test_file_proxy_keeps_partial_line_after_newline() {
    let console = Console::capture();
    let mut proxy = FileProxy::with_console(console, Vec::<u8>::new());
    proxy.write_all("a\nb".as_bytes()).unwrap();
    let output = proxy.console().get_captured();
    assert!(output.contains('a'));
    assert!(!output.contains('b'));
    proxy.flush().unwrap();
    assert!(proxy.console().get_captured().contains('b'));
}

#[test]
fn write_returns_byte_count_and_holds_text_without_newline() {
    let mut proxy = FileProxy::with_console(Console::capture(), Vec::<u8>::new());
    let n = proxy.write("abc".as_bytes()).unwrap();
    assert_eq!(n, 3);
    assert!(proxy.console().get_captured().is_empty());
    assert!(proxy.inner().is_empty());
    let m = proxy.write("d\n".as_bytes()).unwrap();
    assert_eq!(m, 2);
    assert!(proxy.console().get_captured().contains("abcd"));
}

#[test]
fn complete_lines_are_decoded_and_printed_together() {
    let mut proxy = FileProxy::with_console(Console::capture(), Vec::<u8>::new());
    proxy.write_all("one\x1b[1m\ntwo\nrest".as_bytes()).unwrap();
    let out = proxy.console().get_captured();
    assert!(out.contains("one"));
    assert!(out.contains("two"));
    assert!(!out.contains("rest"));
    assert!(!out.contains("\x1b[1m\n"));
    proxy.flush().unwrap();
    assert!(proxy.console().get_captured().contains("rest"));
}
