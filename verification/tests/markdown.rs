use rich_rs::console::{Console, ConsoleOptions, JustifyMethod};
use rich_rs::markdown::Markdown;
use rich_rs::style::Style;
use rich_rs::Renderable;

fn render_to_string(md: &Markdown) -> String {
    let console = Console::new();
    let options = ConsoleOptions::default();
    let segments = md.render(&console, &options);
    segments.iter().map(|s| s.text.to_string()).collect()
}


#[test]
fn test_markdown_new() {
    let md = Markdown::new("Hello");
    assert_eq!(md.markup(), "Hello");
}

#[test]
fn test_markdown_paragraph() {
    let md = Markdown::new("Hello world");
    let output = render_to_string(&md);
    assert!(output.contains("Hello world"));
}

#[test]
fn test_markdown_heading() {
    let md = Markdown::new("# Heading 1\n\n## Heading 2");
    let output = render_to_string(&md);
    assert!(output.contains("Heading 1"));
    assert!(output.contains("Heading 2"));
}

#[test]
fn test_markdown_measure_is_multiline_safe() {
    let md = Markdown::new("# Title\n\n- Item 1\n- Item 2");
    let console = Console::new();
    let options = ConsoleOptions::default();
    let measurement = md.measure(&console, &options);

    // Must be within the console width, and not the (much larger) total width of all lines.
    assert!(measurement.maximum <= options.max_width);
    assert!(measurement.minimum <= measurement.maximum);
}

#[test]
fn test_markdown_bold() {
    let md = Markdown::new("This is **bold** text");
    let output = render_to_string(&md);
    assert!(output.contains("bold"));
}

#[test]
fn test_markdown_italic() {
    let md = Markdown::new("This is *italic* text");
    let output = render_to_string(&md);
    assert!(output.contains("italic"));
}

#[test]
fn test_markdown_code_inline() {
    let md = Markdown::new("Use `println!` macro");
    let output = render_to_string(&md);
    assert!(output.contains("println!"));
}

#[test]
fn test_markdown_code_inline_style() {
    // Verify that inline code gets bold + cyan + black background styling
    let console = Console::new();
    let options = ConsoleOptions::default();
    let md = Markdown::new("Use `code` here");
    let segments = md.render(&console, &options);

    let code_seg = segments.iter().find(|s| s.text.contains("code"));
    assert!(code_seg.is_some(), "Should find 'code' segment");
    let seg = code_seg.unwrap();
    let style = seg.style.unwrap_or_default();
    assert_eq!(style.bold, Some(true), "Code should be bold");
    assert!(style.color.is_some(), "Code should have a color (cyan)");
    assert!(style.bgcolor.is_some(), "Code should have bgcolor (black)");
}

#[test]
fn test_markdown_code_block() {
    let md = Markdown::new("```rust\nfn main() {}\n```");
    let output = render_to_string(&md);
    assert!(output.contains("fn"));
    assert!(output.contains("main"));
}

#[test]
fn test_markdown_list_unordered() {
    let md = Markdown::new("- Item 1\n- Item 2\n- Item 3");
    let output = render_to_string(&md);
    assert!(output.contains("Item 1"));
    assert!(output.contains("Item 2"));
    assert!(output.contains("Item 3"));
}

#[test]
fn test_markdown_list_ordered() {
    let md = Markdown::new("1. First\n2. Second\n3. Third");
    let output = render_to_string(&md);
    assert!(output.contains("First"));
    assert!(output.contains("Second"));
    assert!(output.contains("Third"));
}

#[test]
fn test_markdown_blockquote() {
    let md = Markdown::new("> This is a quote");
    let output = render_to_string(&md);
    assert!(output.contains("This is a quote"));
}

#[test]
fn test_markdown_link() {
    let md = Markdown::new("[Rust](https://rust-lang.org)");
    let output = render_to_string(&md);
    assert!(output.contains("Rust"));
    assert!(output.contains("rust-lang.org"));
}

#[test]
fn test_markdown_horizontal_rule() {
    let md = Markdown::new("Above\n\n---\n\nBelow");
    let output = render_to_string(&md);
    assert!(output.contains("Above"));
    assert!(output.contains("Below"));
}

#[test]
fn test_markdown_table() {
    let md = Markdown::new("| A | B |\n|---|---|\n| 1 | 2 |");
    let output = render_to_string(&md);
    assert!(output.contains("A"));
    assert!(output.contains("B"));
    assert!(output.contains("1"));
    assert!(output.contains("2"));
}

#[test]
fn test_markdown_strikethrough() {
    let md = Markdown::new("~~deleted~~");
    let output = render_to_string(&md);
    assert!(output.contains("deleted"));
}

#[test]
fn test_markdown_nested_formatting() {
    let md = Markdown::new("This is ***bold and italic***");
    let output = render_to_string(&md);
    assert!(output.contains("bold and italic"));
}

#[test]
fn test_markdown_with_style() {
    let style = Style::new().with_bold(true);
    let md = Markdown::new("Hello world").with_style(style);
    assert_eq!(md.style(), Some(style));

    // Verify style is applied to rendered segments
    let console = Console::new();
    let options = ConsoleOptions::default();
    let segments = md.render(&console, &options);
    let text_seg = segments.iter().find(|s| s.text.contains("Hello"));
    assert!(text_seg.is_some());
    let seg_style = text_seg.unwrap().style.unwrap_or_default();
    assert_eq!(seg_style.bold, Some(true));
}

#[test]
fn test_markdown_builder_methods() {
    let md = Markdown::new("# Test")
        .with_hyperlinks(true)
        .with_inline_code_lexer("python")
        .with_code_theme("base16-ocean.dark")
        .with_justify(JustifyMethod::Left);

    assert!(md.hyperlinks());
    assert_eq!(md.inline_code_lexer(), Some("python".to_string()));
    assert_eq!(md.code_theme(), "base16-ocean.dark");
    assert_eq!(md.justify(), Some(JustifyMethod::Left));
}

fn render_width(md: &Markdown, width: usize) -> String {
    let console = Console::new();
    let options = ConsoleOptions::default().update_width(width);
    let segments = md.render(&console, &options);
    segments.iter().map(|s| s.text.to_string()).collect()
}

#[test]
fn test_markdown_link_address_follows_in_brackets() {
    let output = render_to_string(&Markdown::new("[Rust](https://rust-lang.org)"));
    assert!(output.contains("Rust (https://rust-lang.org)"));
    let output = render_to_string(&Markdown::new("[Rust](https://rust-lang.org)").with_hyperlinks(true));
    assert!(output.contains("Rust"));
    assert!(!output.contains("(https://rust-lang.org)"));
}

#[test]
fn test_markdown_image_alt_text() {
    let output = render_to_string(&Markdown::new("![a cat](cat.png)"));
    assert!(output.contains("\u{1F306} a cat"));
    let output = render_to_string(&Markdown::new("![](cat.png)"));
    assert!(output.contains("\u{1F306} cat.png"));
}

#[test]
fn test_markdown_ordered_list_marks() {
    let output = render_width(&Markdown::new("1. First\n2. Second"), 20);
    let lines: Vec<&str> = output.lines().collect();
    assert!(lines[0].starts_with(" 1 First"));
    assert!(lines[1].starts_with(" 2 Second"));
    let output = render_width(&Markdown::new("9. a\n10. b"), 20);
    let lines: Vec<&str> = output.lines().collect();
    assert!(lines[0].starts_with("  9 a"));
    assert!(lines[1].starts_with(" 10 b"));
}

#[test]
fn test_markdown_bullet_list_marks() {
    let output = render_width(&Markdown::new("- one\n- two"), 20);
    let lines: Vec<&str> = output.lines().collect();
    assert!(lines[0].starts_with(" \u{2022} one"));
    assert!(lines[1].starts_with(" \u{2022} two"));
}

#[test]
fn test_markdown_quote_border() {
    let output = render_width(&Markdown::new("> quoted"), 20);
    assert!(output.starts_with("\u{258C} quoted"));
}

#[test]
fn test_markdown_heading_centered() {
    let output = render_width(&Markdown::new("# Hi"), 10);
    let first = output.lines().next().unwrap();
    assert_eq!(first, "    Hi    ");
}

#[test]
fn test_markdown_rule_spans_width() {
    let output = render_width(&Markdown::new("---"), 5);
    assert!(output.starts_with("\u{2500}\u{2500}\u{2500}\u{2500}\u{2500}\n"));
}

#[test]
fn test_markdown_table_columns() {
    let output = render_width(&Markdown::new("| A | Bee |\n|---|--:|\n| 1 | 2 |"), 40);
    let lines: Vec<&str> = output.lines().collect();
    assert_eq!(lines[0], "A \u{2502} Bee");
    assert_eq!(lines[1], "1 \u{2502}   2");
}

#[test]
fn test_markdown_code_block_padding() {
    let output = render_width(&Markdown::new("```\nx\n```").with_code_block_padding((0, 4)), 20);
    assert!(output.starts_with("    x    \n"));
}

#[test]
fn test_markdown_blank_line_between_blocks() {
    let output = render_width(&Markdown::new("a\n\nb"), 3);
    assert_eq!(output, "a  \n\nb  \n");
}
