use rich_rs::box_chars::{ascii, rounded};

#[test]
fn test_box_edges() {
    assert_eq!(rounded().top_edge(3), "╭───╮");
    assert_eq!(rounded().bottom_edge(3), "╰───╯");
}

#[test]
fn box_chars_test_ascii_box() {
    assert_eq!(ascii().top_edge(3), "+---+");
}
