use rich_rs::bar::bar_segments;
use rich_rs::style::Style;

fn text_of(width: usize, range: Option<(usize, usize)>) -> String {
    let segs = bar_segments(width, range, Style::default());
    assert_eq!(segs.len(), 2);
    assert_eq!(segs[1].text, "\n");
    segs[0].text.clone()
}

#[test]
fn test_bar_segments_empty_range_is_blank() {
    assert_eq!(text_of(4, None), "    ");
}

#[test]
fn test_bar_segments_full_cells() {
    assert_eq!(text_of(10, Some((0, 40))), "\u{2588}\u{2588}\u{2588}\u{2588}\u{2588}     ");
}

#[test]
fn test_bar_segments_partial_cells() {
    assert_eq!(text_of(10, Some((20, 60))), "  \u{2590}\u{2588}\u{2588}\u{2588}\u{2588}\u{258C}  ");
}

#[test]
fn test_bar_segments_style_kept() {
    let style = Style::new().with_bold(true);
    let segs = bar_segments(3, Some((0, 24)), style);
    assert_eq!(segs[0].style, Some(style));
    assert_eq!(segs[0].text, "\u{2588}\u{2588}\u{2588}");
}
