use rich_rs::align::{Align, AlignMethod, VerticalAlignMethod};
use rich_rs::cells::cell_len;
use rich_rs::console::{Console, ConsoleOptions};
use rich_rs::style::Style;
use rich_rs::text::Text;
use rich_rs::Renderable;


#[test]
fn test_vertical_align_method_parse() {
    assert_eq!(
        VerticalAlignMethod::parse("top"),
        Some(VerticalAlignMethod::Top)
    );
    assert_eq!(
        VerticalAlignMethod::parse("TOP"),
        Some(VerticalAlignMethod::Top)
    );
    assert_eq!(
        VerticalAlignMethod::parse("middle"),
        Some(VerticalAlignMethod::Middle)
    );
    assert_eq!(
        VerticalAlignMethod::parse("MIDDLE"),
        Some(VerticalAlignMethod::Middle)
    );
    assert_eq!(
        VerticalAlignMethod::parse("bottom"),
        Some(VerticalAlignMethod::Bottom)
    );
    assert_eq!(
        VerticalAlignMethod::parse("BOTTOM"),
        Some(VerticalAlignMethod::Bottom)
    );
    assert_eq!(VerticalAlignMethod::parse("invalid"), None);
}

#[test]
fn test_vertical_align_method_default() {
    assert_eq!(VerticalAlignMethod::default(), VerticalAlignMethod::Top);
}

#[test]
fn test_align_new() {
    let text = Text::plain("Hello");
    let align = Align::new(Box::new(text), AlignMethod::Center);
    assert_eq!(align.align(), AlignMethod::Center);
    assert_eq!(align.vertical(), None);
    assert!(align.pad());
    assert_eq!(align.width(), None);
    assert_eq!(align.height(), None);
}

#[test]
fn test_align_left() {
    let text = Text::plain("Hello");
    let align = Align::left(Box::new(text));
    assert_eq!(align.align(), AlignMethod::Left);
}

#[test]
fn test_align_center() {
    let text = Text::plain("Hello");
    let align = Align::center(Box::new(text));
    assert_eq!(align.align(), AlignMethod::Center);
}

#[test]
fn test_align_right() {
    let text = Text::plain("Hello");
    let align = Align::right(Box::new(text));
    assert_eq!(align.align(), AlignMethod::Right);
}

#[test]
fn test_align_with_style() {
    let text = Text::plain("Hello");
    let style = Style::new().with_bold(true);
    let align = Align::center(Box::new(text)).with_style(style);
    assert_eq!(align.style().bold, Some(true));
}

#[test]
fn test_align_with_vertical() {
    let text = Text::plain("Hello");
    let align = Align::center(Box::new(text)).with_vertical(VerticalAlignMethod::Middle);
    assert_eq!(align.vertical(), Some(VerticalAlignMethod::Middle));
}

#[test]
fn test_align_with_pad() {
    let text = Text::plain("Hello");
    let align = Align::center(Box::new(text)).with_pad(false);
    assert!(!align.pad());
}

#[test]
fn test_align_with_width() {
    let text = Text::plain("Hello");
    let align = Align::center(Box::new(text)).with_width(40);
    assert_eq!(align.width(), Some(40));
}

#[test]
fn test_align_with_height() {
    let text = Text::plain("Hello");
    let align = Align::center(Box::new(text)).with_height(10);
    assert_eq!(align.height(), Some(10));
}

#[test]
fn test_align_render_left() {
    let text = Text::plain("Hello");
    let align = Align::left(Box::new(text));
    let console = Console::with_options(ConsoleOptions {
        max_width: 20,
        ..Default::default()
    });
    let options = console.options().clone();

    let segments = align.render(&console, &options);
    let output: String = segments.iter().map(|s| s.text.to_string()).collect();

    // "Hello" should be followed by padding (15 spaces) + newline
    assert!(output.starts_with("Hello"));
    assert!(output.ends_with('\n'));
    // Total width should be 20 (content + padding)
    let line = output.lines().next().unwrap();
    assert_eq!(cell_len(line), 20);
}

#[test]
fn test_align_render_center() {
    let text = Text::plain("Hello"); // 5 chars
    let align = Align::center(Box::new(text));
    let console = Console::with_options(ConsoleOptions {
        max_width: 15,
        ..Default::default()
    });
    let options = console.options().clone();

    let segments = align.render(&console, &options);
    let output: String = segments.iter().map(|s| s.text.to_string()).collect();
    let line = output.lines().next().unwrap();

    // With width 15 and content 5, we have 10 excess
    // Left padding: 5, right padding: 5
    assert!(line.starts_with("     ")); // 5 spaces
    assert!(line.contains("Hello"));
    assert_eq!(cell_len(line), 15);
}

#[test]
fn test_align_render_right() {
    let text = Text::plain("Hello"); // 5 chars
    let align = Align::right(Box::new(text));
    let console = Console::with_options(ConsoleOptions {
        max_width: 20,
        ..Default::default()
    });
    let options = console.options().clone();

    let segments = align.render(&console, &options);
    let output: String = segments.iter().map(|s| s.text.to_string()).collect();
    let line = output.lines().next().unwrap();

    // With width 20 and content 5, left padding should be 15
    assert!(line.starts_with("               ")); // 15 spaces
    assert!(line.ends_with("Hello"));
    assert_eq!(cell_len(line), 20);
}

#[test]
fn test_align_render_no_pad() {
    let text = Text::plain("Hello");
    let align = Align::center(Box::new(text)).with_pad(false);
    let console = Console::with_options(ConsoleOptions {
        max_width: 20,
        ..Default::default()
    });
    let options = console.options().clone();

    let segments = align.render(&console, &options);
    let output: String = segments.iter().map(|s| s.text.to_string()).collect();
    let line = output.lines().next().unwrap();

    // Center with no right padding: left padding only
    // 20 - 5 = 15 excess, left = 7, no right padding
    assert!(line.contains("Hello"));
    // Without right padding, line should be shorter than max_width
    assert!(cell_len(line) < 20);
}

#[test]
fn test_align_render_with_width() {
    let text = Text::plain("Hello");
    let align = Align::center(Box::new(text)).with_width(10);
    let console = Console::with_options(ConsoleOptions {
        max_width: 50, // Larger than specified width
        ..Default::default()
    });
    let options = console.options().clone();

    let segments = align.render(&console, &options);
    let output: String = segments.iter().map(|s| s.text.to_string()).collect();
    let line = output.lines().next().unwrap();

    // Should use the specified width of 10, not max_width of 50
    assert_eq!(cell_len(line), 10);
}

#[test]
fn test_align_render_exact_fit() {
    let text = Text::plain("Hello"); // 5 chars
    let align = Align::center(Box::new(text));
    let console = Console::with_options(ConsoleOptions {
        max_width: 5, // Exact fit
        ..Default::default()
    });
    let options = console.options().clone();

    let segments = align.render(&console, &options);
    let output: String = segments.iter().map(|s| s.text.to_string()).collect();
    let line = output.lines().next().unwrap();

    // No padding when content exactly fits
    assert_eq!(line, "Hello");
}

#[test]
fn test_align_render_vertical_top() {
    let text = Text::plain("X");
    let align = Align::center(Box::new(text))
        .with_vertical(VerticalAlignMethod::Top)
        .with_height(3)
        .with_width(5);
    let console = Console::new();
    let options = ConsoleOptions {
        max_width: 5,
        ..Default::default()
    };

    let segments = align.render(&console, &options);
    let output: String = segments.iter().map(|s| s.text.to_string()).collect();
    let lines: Vec<&str> = output.lines().collect();

    // Should have 3 lines total: content at top, 2 blank lines below
    assert_eq!(lines.len(), 3);
    assert!(lines[0].contains("X")); // Content at top
}

#[test]
fn test_align_render_vertical_middle() {
    let text = Text::plain("X");
    let align = Align::center(Box::new(text))
        .with_vertical(VerticalAlignMethod::Middle)
        .with_height(5)
        .with_width(3);
    let console = Console::new();
    let options = ConsoleOptions {
        max_width: 3,
        ..Default::default()
    };

    let segments = align.render(&console, &options);
    let output: String = segments.iter().map(|s| s.text.to_string()).collect();
    let lines: Vec<&str> = output.lines().collect();

    // Should have 5 lines: 2 blank, content, 2 blank (or similar)
    assert_eq!(lines.len(), 5);
    // Middle line(s) should contain content
    assert!(lines[2].contains("X")); // (5-1)/2 = 2
}

#[test]
fn test_align_render_vertical_bottom() {
    let text = Text::plain("X");
    let align = Align::center(Box::new(text))
        .with_vertical(VerticalAlignMethod::Bottom)
        .with_height(3)
        .with_width(5);
    let console = Console::new();
    let options = ConsoleOptions {
        max_width: 5,
        ..Default::default()
    };

    let segments = align.render(&console, &options);
    let output: String = segments.iter().map(|s| s.text.to_string()).collect();
    let lines: Vec<&str> = output.lines().collect();

    // Should have 3 lines: 2 blank lines above, content at bottom
    assert_eq!(lines.len(), 3);
    assert!(lines[2].contains("X")); // Content at bottom
}

#[test]
fn test_align_measure() {
    let text = Text::plain("Hello World"); // min=5 (World), max=11
    let align = Align::center(Box::new(text));
    let console = Console::new();
    let options = ConsoleOptions::default();

    let measurement = align.measure(&console, &options);
    // Align passes through the inner measurement
    assert_eq!(measurement.minimum, 5);
    assert_eq!(measurement.maximum, 11);
}

#[test]
fn test_align_debug() {
    let text = Text::plain("Hello");
    let align = Align::center(Box::new(text))
        .with_vertical(VerticalAlignMethod::Middle)
        .with_height(10);
    let debug_str = align.debug_string();
    assert!(debug_str.contains("Align"));
    assert!(debug_str.contains("Center"));
    assert!(debug_str.contains("Middle"));
}

#[test]
fn test_align_cjk_content() {
    let text = Text::plain("你好"); // 4 cells
    let align = Align::center(Box::new(text));
    let console = Console::with_options(ConsoleOptions {
        max_width: 10,
        ..Default::default()
    });
    let options = console.options().clone();

    let segments = align.render(&console, &options);
    let output: String = segments.iter().map(|s| s.text.to_string()).collect();
    let line = output.lines().next().unwrap();

    assert!(line.contains("你好"));
    assert_eq!(cell_len(line), 10);
}

#[test]
fn test_align_emoji_content() {
    let text = Text::plain("Hi!"); // 4 cells with emoji (2) + "Hi" (2) - actually "Hi!" is 3
    let align = Align::right(Box::new(text));
    let console = Console::with_options(ConsoleOptions {
        max_width: 10,
        ..Default::default()
    });
    let options = console.options().clone();

    let segments = align.render(&console, &options);
    let output: String = segments.iter().map(|s| s.text.to_string()).collect();
    let line = output.lines().next().unwrap();

    assert!(line.ends_with("Hi!"));
    assert_eq!(cell_len(line), 10);
}

#[test]
fn align_center_hello_in_eight_cells() {
    let options = ConsoleOptions { max_width: 8, ..Default::default() };
    let console = Console::with_options(options.clone());
    let align = Align::center(Box::new(Text::plain("Hello")));
    let output: String = align.render(&console, &options).iter().map(|s| s.text.to_string()).collect();
    assert_eq!(output, " Hello  \n");
}
