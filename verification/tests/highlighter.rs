use rich_rs::highlighter::{combine_regex, iso8601_highlighter, json_highlighter, path_highlighter, repr_highlighter, try_iso8601_highlighter, try_path_highlighter, try_repr_highlighter_with_theme, Highlighter, NullHighlighter, RegexHighlighter};
use rich_rs::text::Text;


#[test]
fn test_null_highlighter_no_modification() {
    let highlighter = NullHighlighter;
    let mut text = Text::plain("hello world");
    let original_text = text.plain_text().to_string();
    let original_spans_len = text.spans().len();

    highlighter.highlight(&mut text);

    assert_eq!(text.plain_text(), original_text);
    assert_eq!(text.spans().len(), original_spans_len);
}

#[test]
fn test_combine_regex() {
    assert_eq!(combine_regex(&["a", "b", "c"]), "a|b|c");
    assert_eq!(combine_regex(&["foo"]), "foo");
    assert_eq!(combine_regex(&[]), "");
}

#[test]
fn test_combine_regex_with_groups() {
    let combined = combine_regex(&[r"(?P<num>\d+)", r"(?P<word>\w+)"]);
    assert_eq!(combined, r"(?P<num>\d+)|(?P<word>\w+)");
}

#[test]
fn test_regex_highlighter_new_compiles() {
    // Should not panic
    let _highlighter = RegexHighlighter::new(&[r"\d+", r"\w+"], "test.");
}

#[test]
fn test_regex_highlighter_try_new_valid() {
    let result = RegexHighlighter::try_new(&[r"\d+", r"\w+"], "test.");
    assert!(result.is_ok());
}

#[test]
fn test_regex_highlighter_try_new_invalid() {
    let result = RegexHighlighter::try_new(&[r"[invalid"], "test.");
    assert!(result.is_err());
}

#[test]
fn test_json_highlighter_creates() {
    // Should not panic
    let highlighter = json_highlighter();
    assert!(!highlighter.highlights().is_empty());
    assert_eq!(highlighter.base_style(), "json.");
}

#[test]
fn test_regex_highlighter_basic_highlight() {
    // Use "repr." base style which has "repr.number" defined in the theme
    let highlighter = RegexHighlighter::new(&[r"(?P<number>\d+)"], "repr.");
    let mut text = Text::plain("value is 42");

    highlighter.highlight(&mut text);

    // Should have added a span for the number (repr.number exists in theme)
    assert!(!text.spans().is_empty());
    // The span should cover "42" (characters 9-11)
    let span = &text.spans()[0];
    assert_eq!(span.start, 9);
    assert_eq!(span.end, 11);
}

#[test]
fn test_highlighter_trait_object() {
    // Verify the trait is object-safe
    let highlighters: Vec<Box<dyn Highlighter>> = vec![
        Box::new(NullHighlighter),
        Box::new(RegexHighlighter::new(&[r"\d+"], "")),
    ];

    let mut text = Text::plain("test 123");
    for h in &highlighters {
        h.highlight(&mut text);
    }
}

#[test]
fn test_repr_highlighter_creates() {
    // Should not panic
    let highlighter = repr_highlighter();
    assert!(!highlighter.highlights().is_empty());
    assert_eq!(highlighter.base_style(), "repr.");
}

#[test]
fn test_iso8601_highlighter_creates() {
    // Should not panic
    let highlighter = iso8601_highlighter();
    assert!(!highlighter.highlights().is_empty());
    assert_eq!(highlighter.base_style(), "iso8601.");
}

#[test]
fn test_path_highlighter_creates() {
    // Should not panic
    let highlighter = path_highlighter();
    assert!(!highlighter.highlights().is_empty());
    assert_eq!(highlighter.base_style(), "traceback.");
}

#[test]
fn test_try_highlighters_compile() {
    assert!(try_path_highlighter().is_some());
    assert!(try_iso8601_highlighter().is_some());
    assert!(try_repr_highlighter_with_theme(rich_rs::theme::Theme::default_theme()).is_some());
}

#[test]
fn test_repr_highlighter_styles_numbers() {
    let highlighter = repr_highlighter();
    let mut text = Text::plain("x = 42");
    highlighter.highlight(&mut text);
    assert!(text.spans().iter().any(|s| s.start == 4 && s.end == 6));
}
