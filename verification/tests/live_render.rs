use rich_rs::console::Console;
use rich_rs::live::VerticalOverflowMethod;
use rich_rs::live_render::LiveRender;
use rich_rs::style::Style;
use rich_rs::text::Text;
use rich_rs::Renderable;


#[test]
fn test_live_render_basic() {
    let text = Text::plain("Hello World");
    let live_render = LiveRender::new(text);

    let console = Console::new();
    let options = console.options();
    let segments = live_render.render(&console, options);

    // Should have rendered something
    assert!(!segments.is_empty());

    // Shape should be tracked
    assert!(live_render.last_render_height() > 0);
}

#[test]
fn test_live_render_last_render_height() {
    let text = Text::plain("Line 1\nLine 2\nLine 3");
    let live_render = LiveRender::new(text);

    // Before render, height should be 0
    assert_eq!(live_render.last_render_height(), 0);

    let console = Console::new();
    let options = console.options();
    let _ = live_render.render(&console, options);

    // After render, height should be 3
    assert_eq!(live_render.last_render_height(), 3);
}

#[test]
fn test_live_render_position_cursor_no_render() {
    let text = Text::plain("Hello");
    let live_render = LiveRender::new(text);

    // Before any render, position_cursor should return empty control
    let control = live_render.position_cursor();
    assert!(control.is_empty());
}

#[test]
fn test_live_render_position_cursor_after_render() {
    let text = Text::plain("Line 1\nLine 2\nLine 3");
    let live_render = LiveRender::new(text);

    let console = Console::new();
    let options = console.options();
    let _ = live_render.render(&console, options);

    // After render with 3 lines, position_cursor should return control codes
    let control = live_render.position_cursor();
    assert!(!control.is_empty());

    // Verify the control codes through rendering
    let segments = control.render(&console, options);
    // Should have CR, EraseInLine, (CursorUp, EraseInLine) * 2
    // Total: 1 + 1 + 2*2 = 6 control segments
    assert_eq!(segments.len(), 6);
}

#[test]
fn test_live_render_restore_cursor_no_render() {
    let text = Text::plain("Hello");
    let live_render = LiveRender::new(text);

    // Before any render, restore_cursor should return empty control
    let control = live_render.restore_cursor();
    assert!(control.is_empty());
}

#[test]
fn test_live_render_restore_cursor_after_render() {
    let text = Text::plain("Line 1\nLine 2\nLine 3");
    let live_render = LiveRender::new(text);

    let console = Console::new();
    let options = console.options();
    let _ = live_render.render(&console, options);

    // After render with 3 lines, restore_cursor should return control codes
    let control = live_render.restore_cursor();
    assert!(!control.is_empty());

    // Verify the control codes through rendering
    let segments = control.render(&console, options);
    // Should have CR, (CursorUp, EraseInLine) * 3
    // Total: 1 + 3*2 = 7 control segments
    assert_eq!(segments.len(), 7);
}

#[test]
fn test_live_render_set_renderable() {
    let text1 = Text::plain("Hello");
    let mut live_render = LiveRender::new(text1);

    let console = Console::new();
    let options = console.options();
    let _ = live_render.render(&console, options);
    assert_eq!(live_render.last_render_height(), 1);

    // Update renderable
    let text2 = Text::plain("Line 1\nLine 2");
    live_render.set_renderable(text2);

    let _ = live_render.render(&console, options);
    assert_eq!(live_render.last_render_height(), 2);
}

#[test]
fn test_live_render_vertical_overflow_crop() {
    // Create a multi-line text that exceeds terminal height
    let lines: Vec<&str> = (0..100).map(|_| "Line").collect();
    let text = Text::plain(&lines.join("\n"));
    let live_render =
        LiveRender::new(text).with_vertical_overflow(VerticalOverflowMethod::Crop);

    let console = Console::new();
    let mut options = console.options().clone();
    options.size = (80, 10); // 10 lines max

    let _ = live_render.render(&console, &options);

    // Height should be cropped to max_height
    assert_eq!(live_render.last_render_height(), 10);
}

#[test]
fn test_live_render_vertical_overflow_ellipsis() {
    // Create a multi-line text that exceeds terminal height
    let lines: Vec<&str> = (0..100).map(|_| "Line").collect();
    let text = Text::plain(&lines.join("\n"));
    let live_render =
        LiveRender::new(text).with_vertical_overflow(VerticalOverflowMethod::Ellipsis);

    let console = Console::new();
    let mut options = console.options().clone();
    options.size = (80, 10); // 10 lines max

    let _ = live_render.render(&console, &options);

    // Height should be max_height (9 lines + 1 ellipsis line)
    assert_eq!(live_render.last_render_height(), 10);
}

#[test]
fn test_live_render_vertical_overflow_visible() {
    // Create a multi-line text that exceeds terminal height
    let lines: Vec<&str> = (0..100).map(|_| "Line").collect();
    let text = Text::plain(&lines.join("\n"));
    let live_render =
        LiveRender::new(text).with_vertical_overflow(VerticalOverflowMethod::Visible);

    let console = Console::new();
    let mut options = console.options().clone();
    options.size = (80, 10); // 10 lines max

    let _ = live_render.render(&console, &options);

    // Height should NOT be cropped
    assert_eq!(live_render.last_render_height(), 100);
}

#[test]
fn test_live_render_with_style() {
    let text = Text::plain("Hello");
    let style = Style::new().with_bold(true);
    let live_render = LiveRender::new(text).with_style(style);

    let console = Console::new();
    let options = console.options();
    let segments = live_render.render(&console, options);

    // Segments should have been rendered (style is applied internally)
    assert!(!segments.is_empty());
}

#[test]
fn test_live_render_ellipsis_line_exact() {
    let lines: Vec<&str> = (0..5).map(|_| "ab").collect();
    let text = Text::plain(&lines.join("\n"));
    let live_render = LiveRender::new(text);
    let console = Console::new();
    let mut options = console.options().clone();
    options.size = (9, 3);
    options.max_width = 9;
    let out: String = live_render
        .render(&console, &options)
        .iter()
        .map(|s| s.text.to_string())
        .collect();
    assert_eq!(out, "ab\nab\n   ...   ");
    assert_eq!(live_render.last_render_height(), 3);
    assert_eq!(live_render.restore_cursor().segments().len(), 7);
}
