use rich_rs::console::Console;
use rich_rs::group::{Group, Lines, Renderables};
use rich_rs::text::Text;
use rich_rs::Renderable;


#[test]
fn test_group_renders_children_with_newlines() {
    let group = Group::new(vec![Text::plain("A"), Text::plain("B")]);
    let console = Console::new();
    let options = console.options();
    let rendered: String = group
        .render(&console, options)
        .iter()
        .map(|s| s.text.to_string())
        .collect();
    assert!(rendered.contains('\n'));
}

#[test]
fn test_group_measure_fit() {
    let group = Group::new(vec![Text::plain("Hello"), Text::plain("World!")]).with_fit(true);
    let console = Console::new();
    let options = console.options();
    let m = group.measure(&console, options);
    assert!(m.maximum >= 6);
}

#[test]
fn test_renderables_no_newlines() {
    let r = Renderables::new(vec![Text::plain("A"), Text::plain("B")]);
    let console = Console::new();
    let options = console.options();
    let rendered: String = r
        .render(&console, options)
        .iter()
        .map(|s| s.text.to_string())
        .collect();
    // Renderables should NOT insert newlines between children
    assert!(rendered.contains("AB") || rendered.contains("A") && rendered.contains("B"));
    // Check there's no inserted newline between A and B
    let pos_a = rendered.find('A').unwrap();
    let pos_b = rendered.find('B').unwrap();
    let between = &rendered[pos_a + 1..pos_b];
    assert!(
        !between.contains('\n'),
        "Should not insert newline between children"
    );
}

#[test]
fn test_renderables_measure() {
    let r = Renderables::new(vec![Text::plain("Hello"), Text::plain("World!")]);
    let console = Console::new();
    let options = console.options();
    let m = r.measure(&console, options);
    assert!(m.maximum >= 6); // "World!" = 6 chars
}

#[test]
fn test_renderables_empty() {
    let r = Renderables::empty();
    let console = Console::new();
    let options = console.options();
    let m = r.measure(&console, options);
    assert_eq!(m.minimum, 1);
    assert_eq!(m.maximum, 1);
}

#[test]
fn test_group_measure_fill() {
    let group = Group::new(vec![Text::plain("Hello")]).with_fit(false);
    let console = Console::new();
    let mut options = console.options().clone();
    options.max_width = 42;
    let m = group.measure(&console, &options);
    assert_eq!(m.minimum, 42);
    assert_eq!(m.maximum, 42);
}

#[test]
fn test_lines_render_inserts_newlines_between_lines() {
    let lines = Lines::new(vec![Text::plain("A"), Text::plain("B")]);
    let console = Console::new();
    let options = console.options();
    let rendered: String = lines
        .render(&console, options)
        .iter()
        .map(|s| s.text.to_string())
        .collect();
    assert_eq!(rendered, "A\nB");
}

#[test]
fn test_lines_render_does_not_double_insert_newlines() {
    let lines = Lines::new(vec![Text::plain("A\n"), Text::plain("B")]);
    let console = Console::new();
    let options = console.options();
    let rendered: String = lines
        .render(&console, options)
        .iter()
        .map(|s| s.text.to_string())
        .collect();
    assert_eq!(rendered, "A\nB");
}

#[test]
fn test_lines_list_api() {
    let mut lines = Lines::empty();
    assert!(lines.is_empty());

    lines.append(Text::plain("A"));
    lines.extend(vec![Text::plain("B"), Text::plain("C")]);
    assert_eq!(lines.len(), 3);
    assert_eq!(lines.lines()[0].plain_text(), "A");
    assert_eq!(lines.lines()[2].plain_text(), "C");

    let popped = lines.pop().unwrap();
    assert_eq!(popped.plain_text(), "C");
    assert_eq!(lines.len(), 2);
}

#[test]
fn test_lines_measure_uses_widest_line() {
    let lines = Lines::new(vec![Text::plain("cat"), Text::plain("hippo")]);
    let console = Console::new();
    let options = console.options();
    let m = lines.measure(&console, options);
    assert_eq!(m.minimum, 5);
    assert_eq!(m.maximum, 5);
}

#[test]
fn test_group_exact_join() {
    let group = Group::new(vec![Text::plain("A\n"), Text::plain("B"), Text::plain("C")]);
    let console = Console::new();
    let options = console.options();
    let rendered: String = group
        .render(&console, options)
        .iter()
        .map(|s| s.text.to_string())
        .collect();
    assert_eq!(rendered, "A\nB\nC");
    assert_eq!(group.renderables().len(), 3);
    assert_eq!(group.debug_string(), "Group { len: 3, fit: true }");
}

#[test]
fn test_renderables_push_and_join() {
    let mut r = Renderables::empty();
    r.push(Text::plain("x"));
    r.push(Text::plain("y"));
    let console = Console::new();
    let options = console.options();
    let rendered: String = r
        .render(&console, options)
        .iter()
        .map(|s| s.text.to_string())
        .collect();
    assert_eq!(rendered, "xy");
    assert_eq!(r.renderables().len(), 2);
}

#[test]
fn test_lines_pop_after_append() {
    let mut lines = Lines::new(vec![Text::plain("a")]);
    lines.append(Text::plain("b"));
    let popped = lines.pop().unwrap();
    assert_eq!(popped.plain_text(), "b");
    assert_eq!(lines.len(), 1);
    assert_eq!(lines.lines()[0].plain_text(), "a");
}
