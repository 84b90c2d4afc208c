use rich_rs::export_format::{CONSOLE_HTML_FORMAT, CONSOLE_SVG_FORMAT};


#[test]
fn test_svg_format_contains_placeholders() {
    assert!(CONSOLE_SVG_FORMAT.contains("{unique_id}"));
    assert!(CONSOLE_SVG_FORMAT.contains("{width}"));
    assert!(CONSOLE_SVG_FORMAT.contains("{height}"));
    assert!(CONSOLE_SVG_FORMAT.contains("{styles}"));
    assert!(CONSOLE_SVG_FORMAT.contains("{chrome}"));
    assert!(CONSOLE_SVG_FORMAT.contains("{matrix}"));
}

#[test]
fn test_html_format_contains_placeholders() {
    assert!(CONSOLE_HTML_FORMAT.contains("{stylesheet}"));
    assert!(CONSOLE_HTML_FORMAT.contains("{foreground}"));
    assert!(CONSOLE_HTML_FORMAT.contains("{background}"));
    assert!(CONSOLE_HTML_FORMAT.contains("{code}"));
}
