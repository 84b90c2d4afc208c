use rich_rs::color::ColorSystem;
use rich_rs::console::{Console, ConsoleOptions, JustifyMethod, OverflowMethod, PagerOptions, WindowsRenderMode, parse_windows_render_mode};
use rich_rs::style::Style;
use rich_rs::text::Text;
use rich_rs::theme::Theme;
use rich_rs::segment::Segment;
use rich_rs::padding::Padding;
use rich_rs::Renderable;


#[test]
fn test_justify_method_parse() {
    assert_eq!(JustifyMethod::parse("left"), Some(JustifyMethod::Left));
    assert_eq!(JustifyMethod::parse("CENTER"), Some(JustifyMethod::Center));
    assert_eq!(JustifyMethod::parse("Right"), Some(JustifyMethod::Right));
    assert_eq!(JustifyMethod::parse("full"), Some(JustifyMethod::Full));
    assert_eq!(
        JustifyMethod::parse("default"),
        Some(JustifyMethod::Default)
    );
    assert_eq!(JustifyMethod::parse("invalid"), None);
}

#[test]
fn test_overflow_method_parse() {
    assert_eq!(OverflowMethod::parse("fold"), Some(OverflowMethod::Fold));
    assert_eq!(OverflowMethod::parse("CROP"), Some(OverflowMethod::Crop));
    assert_eq!(
        OverflowMethod::parse("Ellipsis"),
        Some(OverflowMethod::Ellipsis)
    );
    assert_eq!(
        OverflowMethod::parse("ignore"),
        Some(OverflowMethod::Ignore)
    );
    assert_eq!(OverflowMethod::parse("invalid"), None);
}

#[test]
fn test_console_options_default() {
    let options = ConsoleOptions::default();
    assert_eq!(options.size, (80, 24));
    assert_eq!(options.min_width, 1);
    assert_eq!(options.max_width, 80);
    assert_eq!(options.max_height, 24);
    assert!(options.is_terminal);
    assert_eq!(options.encoding, "utf-8");
}

#[test]
fn test_console_options_ascii_only() {
    let options = ConsoleOptions {
        encoding: "utf-8".to_string(),
        ..Default::default()
    };
    assert!(!options.ascii_only());

    let options = ConsoleOptions {
        encoding: "ascii".to_string(),
        ..Default::default()
    };
    assert!(options.ascii_only());

    let options = ConsoleOptions {
        encoding: "latin-1".to_string(),
        ..Default::default()
    };
    assert!(options.ascii_only());
}

#[test]
fn test_console_options_update_width() {
    let options = ConsoleOptions::default();
    let updated = options.update_width(120);
    assert_eq!(updated.min_width, 120);
    assert_eq!(updated.max_width, 120);
}

#[test]
fn test_console_options_update_height() {
    let options = ConsoleOptions::default();
    let updated = options.update_height(40);
    assert_eq!(updated.max_height, 40);
    assert_eq!(updated.height, Some(40));
}

#[test]
fn test_console_options_update_dimensions() {
    let options = ConsoleOptions::default();
    let updated = options.update_dimensions(100, 50);
    assert_eq!(updated.min_width, 100);
    assert_eq!(updated.max_width, 100);
    assert_eq!(updated.max_height, 50);
    assert_eq!(updated.height, Some(50));
}

#[test]
fn test_console_options_reset_height() {
    let options = ConsoleOptions {
        height: Some(40),
        ..Default::default()
    };
    let reset = options.reset_height();
    assert_eq!(reset.height, None);
}

#[test]
fn test_console_capture() {
    let mut console = Console::capture();
    console.print_text("Hello, World!");
    let output = console.get_captured();
    assert!(output.contains("Hello, World!"));
}

#[test]
fn test_console_capture_styled() {
    let mut console = Console::capture();
    let style = Style::new().with_bold(true);
    console.print_styled("Bold text", style);
    let output = console.get_captured();
    assert!(output.contains("Bold text"));
}

#[test]
fn test_console_capture_clear() {
    let mut console = Console::capture();
    console.print_text("First");
    console.clear_captured();
    console.print_text("Second");
    let output = console.get_captured();
    assert!(!output.contains("First"));
    assert!(output.contains("Second"));
}

#[test]
fn test_console_capture_bytes() {
    let mut console = Console::capture();
    console.print_text("Test");
    let bytes = console.get_captured_bytes();
    assert!(!bytes.is_empty());
}

#[test]
fn test_parse_windows_render_mode_defaults_to_streaming() {
    assert_eq!(
        parse_windows_render_mode(None),
        WindowsRenderMode::Streaming
    );
    assert_eq!(
        parse_windows_render_mode(Some("invalid")),
        WindowsRenderMode::Streaming
    );
}

#[test]
fn test_parse_windows_render_mode_values() {
    assert_eq!(
        parse_windows_render_mode(Some("segment")),
        WindowsRenderMode::Segment
    );
    assert_eq!(
        parse_windows_render_mode(Some("streaming")),
        WindowsRenderMode::Streaming
    );
    assert_eq!(
        parse_windows_render_mode(Some("  StReAmInG  ")),
        WindowsRenderMode::Streaming
    );
}

#[test]
fn test_console_width() {
    let console = Console::capture_with_options(ConsoleOptions {
        max_width: 120,
        ..Default::default()
    });
    assert_eq!(console.width(), 120);
}

#[test]
fn test_console_set_size() {
    let mut console = Console::capture();
    console.set_size(100, 50);
    assert_eq!(console.width(), 100);
    assert_eq!(console.height(), 50);
    assert_eq!(console.size(), (100, 50));
}

#[test]
fn test_console_force_terminal() {
    let mut console = Console::capture();
    assert!(!console.is_terminal()); // Capture is not terminal by default

    console.set_force_terminal(Some(true));
    assert!(console.is_terminal());

    console.set_force_terminal(Some(false));
    assert!(!console.is_terminal());
}

#[test]
fn test_console_quiet_mode() {
    let mut console = Console::capture();
    console.set_quiet(true);
    console.print_text("This should not appear");
    assert!(console.get_captured().is_empty());
}

#[test]
fn test_console_markup_emoji_highlight() {
    let mut console = Console::capture();

    assert!(console.is_markup_enabled());
    console.set_markup_enabled(false);
    assert!(!console.is_markup_enabled());

    assert!(console.is_emoji_enabled());
    console.set_emoji_enabled(false);
    assert!(!console.is_emoji_enabled());

    assert!(console.is_highlight_enabled());
    console.set_highlight_enabled(false);
    assert!(!console.is_highlight_enabled());
}

#[test]
fn test_console_tab_size() {
    let mut console = Console::capture();
    assert_eq!(console.tab_size(), 8);
    console.set_tab_size(4);
    assert_eq!(console.tab_size(), 4);
}

#[test]
fn test_console_encoding() {
    let mut console = Console::capture();
    assert_eq!(console.encoding(), "utf-8");

    console.set_encoding("latin-1");
    assert_eq!(console.encoding(), "latin-1");
    assert_eq!(console.options().encoding, "latin-1");
}

#[test]
fn test_console_render_text() {
    // Use Console<Stdout> directly for render methods
    let console = Console::with_options(ConsoleOptions::default());
    let text = Text::plain("Hello, World!");
    let segments = console.render(&text);
    assert!(!segments.is_empty());

    let combined: String = segments.iter().map(|s| s.text.to_string()).collect();
    assert_eq!(combined, "Hello, World!");
}

#[test]
fn test_console_print_renderable() {
    let mut console = Console::capture();
    let text = Text::plain("Hello");
    console.print(&text, None, None, None, false, "\n");
    let output = console.get_captured();
    assert!(output.contains("Hello"));
}

#[test]
fn test_console_print_with_style() {
    let mut console = Console::capture();
    let text = Text::plain("Styled");
    let style = Style::new().with_bold(true);
    console
        .print(&text, Some(style), None, None, false, "\n");
    let output = console.get_captured();
    assert!(output.contains("Styled"));
}

#[test]
fn test_console_rule() {
    let mut console = Console::capture();
    console.rule(None);
    let output = console.get_captured();
    assert!(output.contains("─"));
}

#[test]
fn test_console_rule_with_title() {
    let mut console = Console::capture();
    console.rule(Some("Title"));
    let output = console.get_captured();
    assert!(output.contains("Title"));
    assert!(output.contains("─"));
}

#[test]
fn test_console_line() {
    let mut console = Console::capture();
    console.line(3);
    let output = console.get_captured();
    assert_eq!(output.matches('\n').count(), 3);
}

#[test]
fn test_console_measure() {
    let console = Console::capture();
    let text = Text::plain("Hello World");
    let measurement = console.measure(&text, None);
    assert!(measurement.minimum > 0);
    assert!(measurement.maximum >= measurement.minimum);
}

#[test]
fn test_console_alt_screen_tracking() {
    let console = Console::capture();
    assert!(!console.is_alt_screen());
    // Can't actually test enter/leave without a real terminal
}

#[test]
fn test_console_theme_stack() {
    let mut console = Console::capture();
    let theme = Theme::default();
    console.push_theme(theme.clone());
    assert!(console.pop_theme().is_ok());
}

#[test]
fn test_console_setters_sync_to_options() {
    let mut console = Console::capture();

    // Test set_markup_enabled
    console.set_markup_enabled(false);
    assert!(!console.is_markup_enabled());
    assert!(!console.options().markup_enabled);

    // Test set_emoji_enabled
    console.set_emoji_enabled(false);
    assert!(!console.is_emoji_enabled());
    assert!(!console.options().emoji_enabled);

    // Test set_highlight_enabled
    console.set_highlight_enabled(false);
    assert!(!console.is_highlight_enabled());
    assert!(!console.options().highlight_enabled);

    // Test set_tab_size
    console.set_tab_size(4);
    assert_eq!(console.tab_size(), 4);
    assert_eq!(console.options().tab_size, 4);

    // Test set_encoding
    console.set_encoding("cp1252");
    assert_eq!(console.encoding(), "cp1252");
    assert_eq!(console.options().encoding, "cp1252");

    // Test set_color_system
    console.set_color_system(Some(ColorSystem::TrueColor));
    assert_eq!(console.color_system(), Some(ColorSystem::TrueColor));
    assert_eq!(console.options().color_system, Some(ColorSystem::TrueColor));
}

#[test]
fn test_console_options_with_state() {
    let mut console = Console::capture();

    // Modify console state
    console.set_markup_enabled(false);
    console.set_tab_size(2);

    // Get options with state
    let opts = console.options_with_state();
    assert!(!opts.markup_enabled);
    assert_eq!(opts.tab_size, 2);
}

#[test]
fn test_with_options_initializes_from_options() {
    // Create options with custom state
    let mut options = ConsoleOptions::default();
    options.markup_enabled = false;
    options.emoji_enabled = false;
    options.tab_size = 4;
    options.encoding = "ascii".to_string();
    options.color_system = Some(ColorSystem::Standard);

    // Create console from options
    let console = Console::with_options(options);

    // Console fields should match options
    assert!(!console.is_markup_enabled());
    assert!(!console.is_emoji_enabled());
    assert_eq!(console.tab_size(), 4);
    assert_eq!(console.encoding(), "ascii");
    assert_eq!(console.color_system(), Some(ColorSystem::Standard));
}

#[test]
fn test_sync_from_options() {
    let mut console = Console::capture();

    // Modify options directly (not recommended, but supported)
    console.options_mut().markup_enabled = false;
    console.options_mut().tab_size = 2;

    // Console fields are now out of sync
    assert!(console.is_markup_enabled()); // Still true!
    assert_eq!(console.tab_size(), 8); // Still 8!

    // Sync from options
    console.sync_from_options();

    // Now console fields match options
    assert!(!console.is_markup_enabled());
    assert_eq!(console.tab_size(), 2);
}

#[test]
fn test_sync_theme_to_options() {
    let mut console = Console::capture();

    // Modify theme stack directly (not recommended, but supported)
    let mut custom_theme = Theme::empty();
    custom_theme.add_style("direct.style", Style::new().with_italic(true));
    console.theme_stack_mut().push_theme(custom_theme);

    // Options theme stack is now out of sync
    assert!(console.theme_stack().get_style("direct.style").is_some());
    assert!(
        console
            .options()
            .theme_stack
            .get_style("direct.style")
            .is_none()
    ); // Out of sync!

    // Sync theme to options
    console.sync_theme_to_options();

    // Now options theme stack matches
    assert!(
        console
            .options()
            .theme_stack
            .get_style("direct.style")
            .is_some()
    );
}

#[test]
fn test_theme_push_syncs_to_options() {
    let mut console = Console::capture();

    // Get initial depth
    let initial_depth = console.theme_stack().depth();
    let initial_opts_depth = console.options().theme_stack.depth();
    assert_eq!(initial_depth, initial_opts_depth);

    // Push a theme
    let mut custom_theme = Theme::empty();
    custom_theme.add_style("test.style", Style::new().with_bold(true));
    console.push_theme(custom_theme);

    // Both should have increased depth
    assert_eq!(console.theme_stack().depth(), initial_depth + 1);
    assert_eq!(console.options().theme_stack.depth(), initial_depth + 1);

    // Both should see the new style
    assert!(console.theme_stack().get_style("test.style").is_some());
    assert!(
        console
            .options()
            .theme_stack
            .get_style("test.style")
            .is_some()
    );

    // Pop the theme
    console.pop_theme().unwrap();

    // Both should be back to original depth
    assert_eq!(console.theme_stack().depth(), initial_depth);
    assert_eq!(console.options().theme_stack.depth(), initial_depth);
}

#[test]
fn test_pager_options_default() {
    let opts = PagerOptions::default();
    assert!(!opts.styles);
}

#[test]
fn test_pager_options_with_styles() {
    let opts = PagerOptions::new().with_styles(true);
    assert!(opts.styles);
}

#[test]
fn test_pager_context_captures_text() {
    let console = Console::new();
    let mut pager = console.pager(None);

    pager.print_text("Hello");
    pager.print_text("World");

    let buffer = pager.get_buffer_string();
    assert!(buffer.contains("Hello"));
    assert!(buffer.contains("World"));

    // Prevent the pager from actually running during the test
    pager.clear_buffer();
}

#[test]
fn test_pager_context_captures_renderable() {
    let console = Console::new();
    let mut pager = console.pager(None);

    let text = Text::plain("Rendered text");
    pager.print(&text, None, None, None, false, "\n");

    let buffer = pager.get_buffer_string();
    assert!(buffer.contains("Rendered text"));

    // Prevent the pager from actually running during the test
    pager.clear_buffer();
}

#[test]
fn test_console_new_with_record() {
    let console = Console::new_with_record();
    assert!(console.is_recording());
}

#[test]
fn test_console_set_record() {
    let mut console = Console::new();
    assert!(!console.is_recording());

    console.set_record(true);
    assert!(console.is_recording());

    console.set_record(false);
    assert!(!console.is_recording());
}

#[test]
fn test_console_record_buffer() {
    let mut console = Console::new_with_record();
    console.options_mut().is_terminal = false;
    console.options_mut().max_width = 80;

    // Print something
    console.print_text("Hello");

    // Check that something was recorded
    let buffer = console.get_record_buffer();
    assert!(!buffer.is_empty());

    // Find the segment containing "Hello"
    let has_hello = buffer.iter().any(|s| s.text.contains("Hello"));
    assert!(has_hello, "Record buffer should contain 'Hello'");

    // Clear the buffer
    console.clear_record_buffer();
    let buffer = console.get_record_buffer();
    assert!(buffer.is_empty());
}

#[test]
fn test_console_render_str() {
    let console = Console::capture();
    let text = console.render_str("Hello", None, None, None, None);
    assert_eq!(text.plain_text(), "Hello");
}

#[test]
fn test_console_render_str_with_emoji() {
    let console = Console::capture();
    let text = console.render_str(":smile:", None, Some(true), None, None);
    // Should contain the emoji or the original text if emoji not found
    assert!(!text.plain_text().is_empty());
}

#[test]
fn test_nested_renderable_gets_state() {
    let mut console = Console::capture();
    console.set_markup_enabled(false);

    let text = Text::plain("Hello");
    let padded = Padding::new(Box::new(text), 1);

    let options = console.options().clone();
    let segments = padded.render(&Console::with_options(options.clone()), &options);

    assert!(!segments.is_empty());
}

#[test]
fn test_print_json_lays_out_and_prints() {
    let mut console = Console::capture();
    console.print_json("{\"a\":1,\"b\":[true,null]}", 2, false, false);
    let output = console.get_captured();
    assert!(output.contains("\"a\": 1"));
    assert!(output.contains("    true,"));
    assert!(output.ends_with("\n"));
}

struct UppercaseHook;

impl rich_rs::console::RenderHook for UppercaseHook {
    fn process(&self, segments: &Vec<rich_rs::segment::Segment>) -> Vec<rich_rs::segment::Segment> {
        segments
            .iter()
            .map(|seg| {
                if seg.control.is_some() {
                    seg.clone()
                } else {
                    rich_rs::segment::Segment::new(&seg.text.to_uppercase())
                }
            })
            .collect()
    }
}

#[test]
fn test_render_hook_runs_in_print_pipeline() {
    let mut console = Console::capture();
    console.push_render_hook(Box::new(UppercaseHook));

    console.print(&Text::plain("hooked"), None, None, None, false, "\n");
    let output = console.get_captured();
    assert!(output.contains("HOOKED"));
}

#[test]
fn test_pop_render_hook_stops_it() {
    let mut console = Console::capture();
    console.push_render_hook(Box::new(UppercaseHook));
    console.pop_render_hook();
    console.print(&Text::plain("quiet"), None, None, None, false, "\n");
    assert!(console.get_captured().contains("quiet"));
}

#[test]
fn test_write_raw_appends_decoded_bytes() {
    let mut console = Console::capture();
    console.write_raw("h\u{e9}llo".as_bytes());
    assert_eq!(console.get_captured(), "h\u{e9}llo");
}

#[test]
fn test_update_screen_lines_needs_alt_screen() {
    let mut console = Console::capture();
    let lines = vec![vec![rich_rs::segment::Segment::new("x")]];
    assert!(console.update_screen_lines(&lines, 0, 0).is_err());
    assert_eq!(console.get_captured(), "");
}

#[test]
fn test_update_screen_lines_moves_before_each_line() {
    let mut console = Console::capture();
    console.set_force_terminal(Some(true));
    assert!(console.enter_alt_screen());
    console.clear_captured();
    let lines = vec![
        vec![rich_rs::segment::Segment::new("ab")],
        vec![rich_rs::segment::Segment::new("cd")],
    ];
    assert!(console.update_screen_lines(&lines, 2, 3).is_ok());
    let out = console.get_captured();
    let a = out.find("ab").unwrap();
    let c = out.find("cd").unwrap();
    assert!(a < c);
    assert!(out[..a].contains("\x1b["));
    assert!(out[a..c].contains("\x1b["));
}

#[test]
fn print_text_when_recording_records_the_text() {
    let mut console = Console::new_with_record();
    console.print_text("hi");
    let plain = console.export_text(false, false);
    assert_eq!(plain, "hi\n");
}

#[test]
fn theme_pop_after_push_restores_both_stacks() {
    let mut console = Console::new();
    let depth = console.theme_stack().depth();
    assert!(depth >= 1);
    console.push_theme(Theme::default_theme());
    assert!(console.pop_theme().is_ok());
    assert_eq!(console.theme_stack().depth(), depth);
    assert_eq!(console.options().theme_stack.depth(), depth);
    assert!(console.pop_theme().is_err());
}

fn linked_terminal_console() -> Console {
    let mut console = Console::with_options(ConsoleOptions {
        is_terminal: true,
        color_system: Some(ColorSystem::TrueColor),
        ..Default::default()
    });
    console.set_force_terminal(Some(true));
    console
}

#[test]
fn test_print_segments_does_not_emit_osc8_when_not_terminal() {
    let mut console = Console::capture();
    let segments = vec![Segment::new_with_link("X", "https://example.com")];
    console.print_segments(&segments);
    let out = console.get_captured();
    assert!(out.contains("X"));
    assert!(!out.contains("\x1b]8;"));
}

#[test]
fn test_print_segments_emits_osc8_for_segment_meta_link() {
    let mut console = linked_terminal_console();
    let segments = vec![Segment::new_with_link("X", "https://example.com")];
    console.print_segments(&segments);
    let out = console.get_captured();
    assert!(out.contains("\x1b]8;"));
    assert!(out.contains("https://example.com"));
    assert!(out.contains("\x1b]8;;\x1b\\"));
}

#[test]
fn test_print_segments_osc8_link_id_stable_per_console() {
    let mut console = linked_terminal_console();
    let segments = vec![Segment::new_with_link("X", "https://example.com")];
    console.print_segments(&segments);
    let out1 = console.get_captured();
    assert!(out1.contains("id=richrs-1;https://example.com"));
    console.clear_captured();
    console.print_segments(&segments);
    let out2 = console.get_captured();
    assert!(out2.contains("id=richrs-1;https://example.com"));
}

#[test]
fn test_print_segments_closes_hyperlink_before_tail_reset() {
    let mut console = linked_terminal_console();
    let segments = vec![Segment {
        text: "X".to_string(),
        style: Some(Style::new().with_bold(true)),
        control: None,
        link: Some("https://example.com".to_string()),
    }];
    console.print_segments(&segments);
    let out = console.get_captured();
    let close_pos = out.find("\x1b]8;;\x1b\\").unwrap();
    let reset_pos = out.rfind("\x1b[0m").unwrap();
    assert!(close_pos < reset_pos);
}

#[test]
fn second_link_target_gets_the_next_id() {
    let mut console = linked_terminal_console();
    let segments = vec![
        Segment::new_with_link("A", "https://a.example"),
        Segment::new("plain"),
        Segment::new_with_link("B", "https://b.example"),
    ];
    console.print_segments(&segments);
    let out = console.get_captured();
    assert!(out.contains("\x1b]8;id=richrs-1;https://a.example\x1b\\A\x1b]8;;\x1b\\plain"));
    assert!(out.contains("\x1b]8;id=richrs-2;https://b.example\x1b\\B\x1b]8;;\x1b\\"));
}

#[test]
fn out_prints_the_text_and_a_newline() {
    let mut console = Console::capture();
    console.out("plain [bold]text", None, None);
    assert_eq!(console.get_captured(), "plain [bold]text\n");
}

#[test]
fn pager_print_collects_what_a_console_prints() {
    let console = Console::capture();
    let mut pager = console.pager(None);
    pager.print(&Text::plain("paged"), None, None, None, false, "\n");
    let mut twin = Console::with_options(console.options().clone());
    twin.print(&Text::plain("paged"), None, None, None, false, "\n");
    assert_eq!(pager.get_buffer_string(), twin.get_captured());
}

#[test]
fn segment_mode_wraps_linked_text_on_a_terminal() {
    let mut console = linked_terminal_console();
    let segments = vec![Segment::new_with_link("X", "https://example.com"), Segment::new("Y")];
    console.print_segments_segment_mode(&segments);
    let out = console.get_captured();
    assert!(out.contains("\x1b]8;id=richrs-1;https://example.com\x1b\\X\x1b]8;;\x1b\\Y"));
}

#[test]
fn write_raw_replaces_invalid_utf8() {
    let mut console = Console::capture();
    console.write_raw(&[b'a', 0xff, b'b']);
    assert_eq!(console.get_captured(), "a\u{fffd}b");
}
