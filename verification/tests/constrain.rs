use rich_rs::console::{Console, ConsoleOptions};
use rich_rs::constrain::Constrain;
use rich_rs::segment::Segment;
use rich_rs::text::Text;
use rich_rs::Renderable;


#[test]
fn test_constrain_none_yields_child() {
    let text = Text::plain("hello");
    let constrain = Constrain::new(Box::new(text.clone()), None);
    let options = ConsoleOptions::default();
    let console = Console::new();
    let a: Vec<_> = constrain.render(&console, &options).into_iter().collect();
    let b: Vec<_> = text.render(&console, &options).into_iter().collect();
    assert_eq!(a, b);
}

#[test]
fn test_constrain_wraps_child_to_width() {
    let text = Text::plain("hello world");
    let constrain = Constrain::new(Box::new(text), Some(5));
    let options = ConsoleOptions {
        max_width: 80,
        ..Default::default()
    };
    let console = Console::new();

    let segs = constrain.render(&console, &options);
    let lines = Segment::split_lines(segs);
    let (w, h) = Segment::get_shape(&lines);
    assert!(h >= 2);
    assert!(w <= 5);
}

#[test]
fn test_constrain_default_width() {
    let text = Text::plain("hello world");
    let constrain = Constrain::with_default_width(Box::new(text));
    assert_eq!(constrain.width(), Some(80));
}

#[test]
fn test_constrain_measure_respects_width() {
    let text = Text::plain("hello world");
    let constrain = Constrain::new(Box::new(text), Some(5));
    let options = ConsoleOptions {
        max_width: 80,
        ..Default::default()
    };
    let console = Console::new();
    let m = constrain.measure(&console, &options);
    assert!(m.maximum <= 5);
}

#[test]
fn test_constrain_measure_clamps_to_limit() {
    let text = Text::plain("hello world");
    let constrain = Constrain::new(Box::new(text), Some(5));
    let options = ConsoleOptions {
        max_width: 80,
        ..Default::default()
    };
    let console = Console::new();
    let m = constrain.measure(&console, &options);
    assert_eq!(m.minimum, 5);
    assert_eq!(m.maximum, 5);
    let unconstrained = Constrain::new(Box::new(Text::plain("hello world")), None);
    let m2 = unconstrained.measure(&console, &options);
    assert_eq!(m2.minimum, 5);
    assert_eq!(m2.maximum, 11);
}

#[test]
fn test_constrain_debug_string() {
    let c = Constrain::with_default_width(Box::new(Text::plain("x")));
    assert_eq!(c.debug_string(), "Constrain { width: Some(80), .. }");
    let c = c.with_width(None);
    assert_eq!(c.debug_string(), "Constrain { width: None, .. }");
}
