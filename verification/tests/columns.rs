use rich_rs::console::{Console, ConsoleOptions};
use rich_rs::columns::Columns;
use rich_rs::text::Text;
use rich_rs::Renderable;

fn make_console(width: usize) -> Console {
    Console::with_options(ConsoleOptions {
        max_width: width,
        ..Default::default()
    })
}


#[test]
fn test_columns_empty() {
    let columns = Columns::empty();
    let console = make_console(80);
    let options = console.options().clone();
    let segments = columns.render(&console, &options);
    assert!(segments.is_empty());
}

#[test]
fn test_columns_single_item() {
    let items: Vec<Box<dyn Renderable>> = vec![Box::new(Text::plain("Hello"))];
    let columns = Columns::new(items);
    let console = make_console(80);
    let options = console.options().clone();
    let segments = columns.render(&console, &options);
    let text: String = segments.iter().map(|s| s.text.to_string()).collect();
    assert!(text.contains("Hello"));
}

#[test]
fn test_columns_multiple_items() {
    let items: Vec<Box<dyn Renderable>> = vec![
        Box::new(Text::plain("A")),
        Box::new(Text::plain("B")),
        Box::new(Text::plain("C")),
        Box::new(Text::plain("D")),
    ];
    let columns = Columns::new(items);
    let console = make_console(80);
    let options = console.options().clone();
    let segments = columns.render(&console, &options);
    let text: String = segments.iter().map(|s| s.text.to_string()).collect();
    assert!(text.contains("A"));
    assert!(text.contains("B"));
    assert!(text.contains("C"));
    assert!(text.contains("D"));
}

#[test]
fn test_columns_add() {
    let mut columns = Columns::empty();
    columns.add(Box::new(Text::plain("Item 1")));
    columns.add_str("Item 2");
    assert_eq!(columns.renderables().len(), 2);
}

#[test]
fn test_columns_with_expand() {
    let items: Vec<Box<dyn Renderable>> =
        vec![Box::new(Text::plain("A")), Box::new(Text::plain("B"))];
    let columns = Columns::new(items).with_expand(true);
    assert!(columns.expand());
}

#[test]
fn test_columns_with_equal() {
    let items: Vec<Box<dyn Renderable>> = vec![
        Box::new(Text::plain("Short")),
        Box::new(Text::plain("Much Longer Text")),
    ];
    let columns = Columns::new(items).with_equal(true);
    assert!(columns.equal());
}

#[test]
fn test_columns_with_title() {
    let items: Vec<Box<dyn Renderable>> = vec![Box::new(Text::plain("A"))];
    let columns = Columns::new(items).with_title("My Title");
    assert!(columns.title().is_some());
}

#[test]
fn test_columns_narrow_width() {
    // With very narrow width, should reduce to 1 column
    let items: Vec<Box<dyn Renderable>> = vec![
        Box::new(Text::plain("Hello World")),
        Box::new(Text::plain("Goodbye World")),
    ];
    let columns = Columns::new(items);
    let console = make_console(15);
    let options = console.options().clone();
    let segments = columns.render(&console, &options);
    let text: String = segments.iter().map(|s| s.text.to_string()).collect();
    // Both items should be present
    assert!(text.contains("Hello"));
    assert!(text.contains("Goodbye"));
}

#[test]
fn test_columns_exact_grid() {
    let items: Vec<Box<dyn Renderable>> = vec![
        Box::new(Text::plain("aa")),
        Box::new(Text::plain("b")),
        Box::new(Text::plain("ccc")),
    ];
    let columns = Columns::new(items);
    let console = make_console(6);
    let options = console.options().clone();
    let text: String = columns
        .render(&console, &options)
        .iter()
        .map(|s| s.text.to_string())
        .collect();
    // "aa b ccc" is 8 cells wide; two columns fit: widths 3 ("aa"/"ccc") and 1 ("b").
    assert_eq!(text, "aa  b\nccc  \n");
}

#[test]
fn test_columns_column_first_order() {
    let items: Vec<Box<dyn Renderable>> = vec![
        Box::new(Text::plain("1")),
        Box::new(Text::plain("2")),
        Box::new(Text::plain("3")),
    ];
    let columns = Columns::new(items).with_column_first(true);
    let console = make_console(3);
    let options = console.options().clone();
    let text: String = columns
        .render(&console, &options)
        .iter()
        .map(|s| s.text.to_string())
        .collect();
    assert_eq!(text, "1 3\n2  \n");
}

#[test]
fn chosen_column_count_fits_the_width() {
    let words = ["alpha", "be", "gamma", "d", "epsilon", "zeta"];
    let items: Vec<Box<dyn Renderable>> = words.iter().map(|w| Box::new(Text::plain(w)) as Box<dyn Renderable>).collect();
    let columns = Columns::new(items);
    let console = make_console(16);
    let options = console.options().clone();
    let text: String = columns.render(&console, &options).iter().map(|s| s.text.to_string()).collect();
    let lines: Vec<&str> = text.lines().collect();
    assert!(lines.len() >= 2);
    assert!(lines.len() < words.len());
    for line in lines {
        assert!(line.trim_end().chars().count() <= 16);
    }
    for w in words {
        assert!(text.contains(w));
    }
}
