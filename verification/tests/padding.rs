use rich_rs::cells::cell_len;
use rich_rs::color::SimpleColor;
use rich_rs::console::{Console, ConsoleOptions};
use rich_rs::padding::{Padding, PaddingDimensions};
use rich_rs::style::Style;
use rich_rs::text::Text;
use rich_rs::Renderable;


#[test]
fn test_unpack_single_value() {
    assert_eq!(Padding::unpack(5), (5, 5, 5, 5));
}

#[test]
fn test_unpack_single_tuple() {
    assert_eq!(Padding::unpack((5,)), (5, 5, 5, 5));
}

#[test]
fn test_unpack_two_values() {
    // (vertical, horizontal)
    assert_eq!(Padding::unpack((2, 4)), (2, 4, 2, 4));
}

#[test]
fn test_unpack_four_values() {
    // (top, right, bottom, left) - CSS order
    assert_eq!(Padding::unpack((1, 2, 3, 4)), (1, 2, 3, 4));
}

#[test]
fn test_unpack_zero() {
    assert_eq!(Padding::unpack(0), (0, 0, 0, 0));
}

#[test]
fn test_padding_new() {
    let text = Text::plain("Hello");
    let padding = Padding::new(Box::new(text), (1, 2, 3, 4));
    assert_eq!(padding.top(), 1);
    assert_eq!(padding.right(), 2);
    assert_eq!(padding.bottom(), 3);
    assert_eq!(padding.left(), 4);
    assert!(padding.expand());
}

#[test]
fn test_padding_indent() {
    let text = Text::plain("Hello");
    let padding = Padding::indent(Box::new(text), 4);
    assert_eq!(padding.top(), 0);
    assert_eq!(padding.right(), 0);
    assert_eq!(padding.bottom(), 0);
    assert_eq!(padding.left(), 4);
    assert!(!padding.expand());
}

#[test]
fn test_padding_with_style() {
    let text = Text::plain("Hello");
    let style = Style::new().with_bold(true);
    let padding = Padding::new(Box::new(text), 1).with_style(style);
    assert_eq!(padding.style().bold, Some(true));
}

#[test]
fn test_padding_with_expand() {
    let text = Text::plain("Hello");
    let padding = Padding::new(Box::new(text), 1).with_expand(false);
    assert!(!padding.expand());
}

#[test]
fn test_padding_render_basic() {
    let text = Text::plain("Hello");
    let padding = Padding::new(Box::new(text), (0, 2, 0, 2));
    let console = Console::with_options(ConsoleOptions {
        max_width: 20,
        ..Default::default()
    });
    let options = console.options().clone();

    let segments = padding.render(&console, &options);
    let output: String = segments.iter().map(|s| s.text.to_string()).collect();

    // Should have left padding + "Hello" + right padding + newline
    assert!(output.contains("  Hello")); // 2 spaces left + Hello
    assert!(output.ends_with('\n'));
}

#[test]
fn test_padding_render_with_top_bottom() {
    let text = Text::plain("X");
    let padding = Padding::new(Box::new(text), (1, 0, 1, 0));
    let console = Console::with_options(ConsoleOptions {
        max_width: 10,
        ..Default::default()
    });
    let options = console.options().clone();

    let segments = padding.render(&console, &options);
    let output: String = segments.iter().map(|s| s.text.to_string()).collect();
    let lines: Vec<&str> = output.lines().collect();

    // Should have blank line, content line, blank line (3 lines total)
    // But the last line may not have a trailing newline visible in lines()
    assert!(lines.len() >= 2); // At least top blank + content
}

#[test]
fn test_padding_render_expand_true() {
    let text = Text::plain("Hi");
    let padding = Padding::new(Box::new(text), (0, 0, 0, 0)).with_expand(true);
    let console = Console::with_options(ConsoleOptions {
        max_width: 10,
        ..Default::default()
    });
    let options = console.options().clone();

    let segments = padding.render(&console, &options);

    // When expand=true and pad=true, the line should be padded to max_width
    let total_text: String = segments
        .iter()
        .filter(|s| !s.text.contains('\n'))
        .map(|s| s.text.to_string())
        .collect();

    // The content should be "Hi" padded to 10 characters
    assert_eq!(cell_len(&total_text), 10);
}

#[test]
fn test_padding_render_expand_false() {
    let text = Text::plain("Hi");
    let padding = Padding::new(Box::new(text), (0, 1, 0, 1)).with_expand(false);
    let console = Console::with_options(ConsoleOptions {
        max_width: 20,
        ..Default::default()
    });
    let options = console.options().clone();

    let segments = padding.render(&console, &options);
    let output: String = segments.iter().map(|s| s.text.to_string()).collect();

    // With expand=false, width = content_max(2) + left(1) + right(1) = 4
    // So we should have: " Hi " + newline
    assert!(output.contains(" Hi ")); // left + Hi + right
}

#[test]
fn test_padding_measure_basic() {
    let text = Text::plain("Hello"); // 5 chars
    let padding = Padding::new(Box::new(text), (0, 2, 0, 2)); // +4 horizontal
    let console = Console::with_options(ConsoleOptions {
        max_width: 80,
        ..Default::default()
    });
    let options = console.options().clone();

    let measurement = padding.measure(&console, &options);
    // "Hello" has min=max=5 (no spaces)
    // With left=2, right=2, we add 4 to both
    assert_eq!(measurement.minimum, 9);
    assert_eq!(measurement.maximum, 9);
}

#[test]
fn test_padding_measure_with_words() {
    let text = Text::plain("Hello World"); // min=5 (longest word), max=11
    let padding = Padding::new(Box::new(text), (0, 1, 0, 1)); // +2 horizontal
    let console = Console::with_options(ConsoleOptions {
        max_width: 80,
        ..Default::default()
    });
    let options = console.options().clone();

    let measurement = padding.measure(&console, &options);
    assert_eq!(measurement.minimum, 7); // 5 + 2
    assert_eq!(measurement.maximum, 13); // 11 + 2
}

#[test]
fn test_padding_measure_clamped() {
    let text = Text::plain("Hello World");
    let padding = Padding::new(Box::new(text), (0, 2, 0, 2)); // +4 horizontal
    let console = Console::with_options(ConsoleOptions {
        max_width: 10,
        ..Default::default()
    });
    let options = console.options().clone();

    let measurement = padding.measure(&console, &options);
    // max should be clamped to max_width
    assert!(measurement.maximum <= 10);
}

#[test]
fn test_padding_measure_insufficient_width() {
    let text = Text::plain("Hi");
    let padding = Padding::new(Box::new(text), (0, 5, 0, 5)); // +10 horizontal
    let console = Console::with_options(ConsoleOptions {
        max_width: 8,
        ..Default::default()
    });
    let options = console.options().clone();

    let measurement = padding.measure(&console, &options);
    // When max_width < extra_width + 1, return max_width for both
    assert_eq!(measurement.minimum, 8);
    assert_eq!(measurement.maximum, 8);
}

#[test]
fn test_padding_style_applies_to_content() {

    let text = Text::plain("Hi");
    let style = Style::new().with_bgcolor(SimpleColor::Standard(4)); // blue bg
    let padding = Padding::new(Box::new(text), (0, 0, 0, 0)).with_style(style);
    let console = Console::with_options(ConsoleOptions {
        max_width: 10,
        ..Default::default()
    });
    let options = console.options().clone();

    let segments = padding.render(&console, &options);

    // Content segments should have the padding style applied (blue background)
    let content_seg = segments.iter().find(|s| s.text.contains("Hi"));
    assert!(content_seg.is_some(), "Should find 'Hi' segment");
    let seg = content_seg.unwrap();
    let seg_style = seg.style.unwrap_or_default();
    assert!(
        seg_style.bgcolor.is_some(),
        "Content should have background color from padding style"
    );
}

#[test]
fn test_padding_dimensions_is_send_sync() {
    fn assert_send<T: Send>() {}
    fn assert_sync<T: Sync>() {}
    assert_send::<PaddingDimensions>();
    assert_sync::<PaddingDimensions>();
}

#[test]
fn test_padding_debug() {
    let text = Text::plain("Hello");
    let padding = Padding::new(Box::new(text), (1, 2, 3, 4));
    let debug_str = padding.debug_string();
    assert!(debug_str.contains("Padding"));
    assert!(debug_str.contains("top: 1"));
    assert!(debug_str.contains("right: 2"));
    assert!(debug_str.contains("bottom: 3"));
    assert!(debug_str.contains("left: 4"));
}

#[test]
fn test_padding_render_exact_frame() {
    let text = Text::plain("Hi");
    let padding = Padding::new(Box::new(text), (1, 2, 1, 3));
    let console = Console::with_options(ConsoleOptions {
        max_width: 10,
        ..Default::default()
    });
    let options = console.options().clone();
    let segments = padding.render(&console, &options);
    let output: String = segments.iter().map(|s| s.text.to_string()).collect();
    assert_eq!(output, "          \n   Hi     \n          \n");
}

#[test]
fn test_padding_sides_shared_when_no_room() {
    let text = Text::plain("Hi");
    let padding = Padding::new(Box::new(text), (0, 3, 0, 3));
    let console = Console::with_options(ConsoleOptions {
        max_width: 5,
        ..Default::default()
    });
    let options = console.options().clone();
    let segments = padding.render(&console, &options);
    assert_eq!(segments[0].text, "   ");
    let n = segments.len();
    assert_eq!(segments[n - 1].text, "\n");
    assert_eq!(segments[n - 2].text, "  ");
}

#[test]
fn test_padding_dimensions_unpack_forms() {
    assert_eq!(PaddingDimensions::All(3).unpack(), (3, 3, 3, 3));
    assert_eq!(PaddingDimensions::TwoWay(1, 2).unpack(), (1, 2, 1, 2));
    assert_eq!(PaddingDimensions::FourWay(1, 2, 3, 4).unpack(), (1, 2, 3, 4));
    assert_eq!(PaddingDimensions::from((7, 8)), PaddingDimensions::TwoWay(7, 8));
}
