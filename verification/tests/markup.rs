use rich_rs::markup::{escape, Tag, normalize_style, parse, render, render_with_style};
use rich_rs::style::Style;
use rich_rs::text::MetaValue;


#[test]
fn test_tag_new() {
    let tag = Tag::new("bold", None);
    assert_eq!(tag.name, "bold");
    assert_eq!(tag.parameters, None);
    assert_eq!(tag.markup(), "[bold]");

    let tag_with_params = Tag::new("link", Some("https://example.com".to_string()));
    assert_eq!(tag_with_params.name, "link");
    assert_eq!(
        tag_with_params.parameters,
        Some("https://example.com".to_string())
    );
    assert_eq!(tag_with_params.markup(), "[link=https://example.com]");
}

#[test]
fn test_tag_display() {
    let tag = Tag::new("bold", None);
    assert_eq!(tag.to_string(), "bold");

    let tag_with_params = Tag::new("link", Some("url".to_string()));
    assert_eq!(tag_with_params.to_string(), "link url");
}

#[test]
fn test_parse_plain_text() {
    let tokens = parse("hello world");
    assert_eq!(tokens.len(), 1);
    assert_eq!(tokens[0].1, Some("hello world".to_string()));
}

#[test]
fn test_parse_single_tag() {
    let tokens = parse("[bold]hello[/bold]");
    assert_eq!(tokens.len(), 3);

    // Opening tag
    assert!(tokens[0].2.is_some());
    assert_eq!(tokens[0].2.as_ref().unwrap().name, "bold");

    // Text
    assert_eq!(tokens[1].1, Some("hello".to_string()));

    // Closing tag
    assert!(tokens[2].2.is_some());
    assert_eq!(tokens[2].2.as_ref().unwrap().name, "/bold");
}

#[test]
fn test_parse_tag_with_params() {
    let tokens = parse("[link=https://example.com]click[/link]");
    assert_eq!(tokens.len(), 3);

    let open_tag = tokens[0].2.as_ref().unwrap();
    assert_eq!(open_tag.name, "link");
    assert_eq!(open_tag.parameters, Some("https://example.com".to_string()));
}

#[test]
fn test_parse_escaped_bracket() {
    let tokens = parse("\\[not a tag]");
    assert_eq!(tokens.len(), 1);
    // The escaped bracket should be plain text
    assert!(tokens[0].1.is_some());
    assert!(tokens[0].1.as_ref().unwrap().contains("[not a tag]"));
}

#[test]
fn test_render_plain() {
    let text = render("hello world", false).unwrap();
    assert_eq!(text.plain_text(), "hello world");
    assert!(text.spans().is_empty());
}

#[test]
fn test_render_bold() {
    let text = render("[bold]hello[/bold]", false).unwrap();
    assert_eq!(text.plain_text(), "hello");
    assert!(!text.spans().is_empty());
}

#[test]
fn test_render_implicit_close() {
    let text = render("[bold]hello[/]", false).unwrap();
    assert_eq!(text.plain_text(), "hello");
    assert!(!text.spans().is_empty());
}

#[test]
fn test_render_nested() {
    let text = render("[bold][italic]hello[/italic][/bold]", false).unwrap();
    assert_eq!(text.plain_text(), "hello");
    // Should have spans for both bold and italic
    assert!(text.spans().len() >= 2);
}

#[test]
fn test_render_with_color() {
    let text = render("[red]hello[/red]", false).unwrap();
    assert_eq!(text.plain_text(), "hello");
    assert!(!text.spans().is_empty());
}

#[test]
fn test_render_unclosed_tag() {
    // Unclosed tags should apply to end of text
    let text = render("[bold]hello", false).unwrap();
    assert_eq!(text.plain_text(), "hello");
    assert!(!text.spans().is_empty());
}

#[test]
fn test_render_unclosed_link() {
    // Unclosed link should apply underline+cyan to end of text
    let text = render("[link=https://x]hi", false).unwrap();
    assert_eq!(text.plain_text(), "hi");
    assert!(!text.spans().is_empty());
    // Should have underline from link style
    assert!(text.spans()[0].style.underline == Some(true));
    assert_eq!(
        text.spans()[0]
            .meta
            .as_ref()
            .and_then(|m| m.link.as_deref()),
        Some("https://x")
    );
}

#[test]
fn test_render_unclosed_metadata() {
    // Unclosed metadata tag should create non-visible spans with metadata attached
    let text = render("[@foo]bar", false).unwrap();
    assert_eq!(text.plain_text(), "bar");
    assert_eq!(text.spans().len(), 1);
    assert!(text.spans()[0].style.is_null());
    let meta = text.spans()[0].meta.as_ref().unwrap();
    let meta_map = meta.meta.as_ref().unwrap();
    assert_eq!(meta_map.get("@foo"), Some(&MetaValue::Null));
}

#[test]
fn test_render_unmatched_close_error() {
    let result = render("[bold]hello[/italic]", false);
    assert!(result.is_err());
}

#[test]
fn test_render_empty_close_no_open_error() {
    let result = render("hello[/]", false);
    assert!(result.is_err());
}

#[test]
fn test_render_escaped_bracket() {
    let text = render("\\[not bold]", false).unwrap();
    assert_eq!(text.plain_text(), "[not bold]");
}

#[test]
fn test_render_with_emoji() {
    let text = render(":smile:", true).unwrap();
    // Should contain the smile emoji
    assert!(text.plain_text().contains('\u{1f604}') || text.plain_text() == ":smile:");
}

#[test]
fn test_render_emoji_in_styled() {
    let text = render("[bold]:+1:[/bold]", true).unwrap();
    // Should contain thumbs up emoji
    assert!(!text.spans().is_empty());
}

#[test]
fn test_render_link() {
    let text = render("[link=https://example.com]click here[/link]", false).unwrap();
    assert_eq!(text.plain_text(), "click here");
    // Link should create a span (underlined cyan)
    assert!(!text.spans().is_empty());
    assert_eq!(
        text.spans()[0]
            .meta
            .as_ref()
            .and_then(|m| m.link.as_deref()),
        Some("https://example.com")
    );
}

#[test]
fn test_normalize_style() {
    assert_eq!(normalize_style("BOLD"), "bold");
    assert_eq!(normalize_style("  italic  "), "italic");
    assert_eq!(normalize_style("Bold Red"), "bold red");
}

#[test]
fn test_render_with_style() {
    let base_style = Style::new().with_italic(true);
    let text = render_with_style("[bold]hello[/]", base_style, false).unwrap();
    assert_eq!(text.plain_text(), "hello");
    // Should have both bold and italic spans
    assert!(text.spans().len() >= 2);
}

#[test]
fn test_render_multiple_tags_same_text() {
    let text = render("[bold red on blue]styled[/]", false).unwrap();
    assert_eq!(text.plain_text(), "styled");
    assert!(!text.spans().is_empty());
}

#[test]
fn test_render_overlapping_styles() {
    let text = render("[bold]Hello [italic]World[/italic]![/bold]", false).unwrap();
    assert_eq!(text.plain_text(), "Hello World!");
}

#[test]
fn test_parse_position_tracking() {
    let tokens = parse("abc[bold]def[/bold]ghi");
    // Positions: mid-text yields END position, trailing text yields START position (matches Python)
    assert_eq!(tokens[0].0, 3); // "abc" ends at 3 (where [bold] starts)
    assert_eq!(tokens[1].0, 3); // [bold] starts at 3
    assert_eq!(tokens[2].0, 12); // "def" ends at 12 (where [/bold] starts)
    assert_eq!(tokens[3].0, 12); // [/bold] starts at 12
    assert_eq!(tokens[4].0, 19); // "ghi" starts at 19 (trailing text uses start position)
}

#[test]
fn test_escape_simple() {
    assert_eq!(escape("[bold]"), "\\[bold]");
}

#[test]
fn test_escape_with_backslash() {
    assert_eq!(escape("\\[bold]"), "\\\\\\[bold]");
}

#[test]
fn test_escape_no_tag() {
    assert_eq!(escape("hello world"), "hello world");
}

#[test]
fn test_escape_not_a_tag() {
    // Brackets that don't start tags are left alone
    assert_eq!(escape("[123]"), "[123]");
}

#[test]
fn test_escape_roundtrip() {
    let original = "[bold]text[/bold]";
    let escaped = escape(original);
    let text = render(&escaped, false).unwrap();
    assert_eq!(text.plain_text(), original);
}

#[test]
fn test_escape_trailing_backslash() {
    assert_eq!(escape("path\\"), "path\\\\");
    assert_eq!(escape("path\\\\"), "path\\\\");
}

#[test]
fn test_escape_several_tags() {
    assert_eq!(escape("a [b] c [/b] [1]"), "a \\[b] c \\[/b] [1]");
}
