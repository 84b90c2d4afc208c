use rich_rs::boxes::{ascii, ascii2, ascii_double_head, double, double_edge, heavy, heavy_edge, heavy_head, horizontals, markdown, minimal, minimal_double_head, minimal_heavy_head, rounded, simple, simple_head, simple_heavy, square, square_double_head, Box, RowLevel};

#[test]
fn test_box_top_edge() {
    assert_eq!(rounded().top_edge(3), "╭───╮");
    assert_eq!(rounded().bottom_edge(3), "╰───╯");
}

#[test]
fn box_test_ascii_box() {
    assert_eq!(ascii().top_edge(3), "+---+");
    assert_eq!(ascii().bottom_edge(3), "+---+");
}

#[test]
fn test_square_box() {
    assert_eq!(square().top_edge(5), "┌─────┐");
    assert_eq!(square().bottom_edge(5), "└─────┘");
}

#[test]
fn test_heavy_box() {
    assert_eq!(heavy().top_edge(4), "┏━━━━┓");
    assert_eq!(heavy().bottom_edge(4), "┗━━━━┛");
}

#[test]
fn test_double_box() {
    assert_eq!(double().top_edge(3), "╔═══╗");
    assert_eq!(double().bottom_edge(3), "╚═══╝");
}

#[test]
fn test_get_top_multiple_columns() {
    assert_eq!(square().get_top(&[3, 5, 2]), "┌───┬─────┬──┐");
    // ascii() uses '-' for both top and top_divider, so no visible column separators
    assert_eq!(ascii().get_top(&[3, 5, 2]), "+------------+");
    // ascii2() uses '+' for top_divider, showing column separators
    assert_eq!(ascii2().get_top(&[3, 5, 2]), "+---+-----+--+");
    assert_eq!(heavy().get_top(&[2, 2]), "┏━━┳━━┓");
}

#[test]
fn test_get_bottom_multiple_columns() {
    assert_eq!(square().get_bottom(&[3, 5, 2]), "└───┴─────┴──┘");
    // ascii() uses '-' for both bottom and bottom_divider
    assert_eq!(ascii().get_bottom(&[3, 5, 2]), "+------------+");
    // ascii2() uses '+' for bottom_divider
    assert_eq!(ascii2().get_bottom(&[3, 5, 2]), "+---+-----+--+");
    assert_eq!(double().get_bottom(&[4, 4]), "╚════╩════╝");
}

#[test]
fn test_get_row_head() {
    assert_eq!(square().get_row(&[3, 5], RowLevel::Head, true), "├───┼─────┤");
    assert_eq!(heavy().get_row(&[3, 5], RowLevel::Head, true), "┣━━━╋━━━━━┫");
}

#[test]
fn test_get_row_regular() {
    assert_eq!(square().get_row(&[4, 4], RowLevel::Row, true), "├────┼────┤");
    assert_eq!(ascii().get_row(&[3, 3], RowLevel::Row, true), "|---+---|");
}

#[test]
fn test_get_row_foot() {
    assert_eq!(square().get_row(&[3, 3], RowLevel::Foot, true), "├───┼───┤");
}

#[test]
fn test_get_row_mid() {
    assert_eq!(square().get_row(&[3, 3], RowLevel::Mid, true), "│   │   │");
    assert_eq!(heavy().get_row(&[2, 2], RowLevel::Mid, true), "┃  ┃  ┃");
}

#[test]
fn test_get_row_no_edge() {
    assert_eq!(square().get_row(&[3, 3], RowLevel::Row, false), "───┼───");
    assert_eq!(ascii().get_row(&[2, 2], RowLevel::Row, false), "--+--");
}

#[test]
fn test_substitute_legacy_windows() {
    // rounded() should become square() on legacy Windows
    let result = rounded().substitute(true, false);
    assert_eq!(result, square());

    // heavy() should become square()
    let result = heavy().substitute(true, false);
    assert_eq!(result, square());

    // minimal_heavy_head() should become minimal()
    let result = minimal_heavy_head().substitute(true, false);
    assert_eq!(result, minimal());

    // simple_heavy() should become simple()
    let result = simple_heavy().substitute(true, false);
    assert_eq!(result, simple());

    // square() stays square()
    let result = square().substitute(true, false);
    assert_eq!(result, square());
}

#[test]
fn test_substitute_ascii_only() {
    // Non-ascii() boxes should become ascii()
    let result = square().substitute(false, true);
    assert_eq!(result, ascii());

    let result = rounded().substitute(false, true);
    assert_eq!(result, ascii());

    // ascii() boxes stay ascii()
    let result = ascii().substitute(false, true);
    assert_eq!(result, ascii());

    let result = ascii2().substitute(false, true);
    assert_eq!(result, ascii2());

    let result = markdown().substitute(false, true);
    assert_eq!(result, markdown());
}

#[test]
fn test_substitute_both_flags() {
    // Legacy Windows + ascii() only: rounded() -> square() -> ascii()
    let result = rounded().substitute(true, true);
    assert_eq!(result, ascii());
}

#[test]
fn test_substitute_custom_box() {
    // Custom boxes should be returned unchanged when not needing substitution
    let custom = Box {
        top_left: '*',
        top: '*',
        top_divider: '*',
        top_right: '*',
        head_left: '*',
        head_vertical: '*',
        head_right: '*',
        head_row_left: '*',
        head_row_horizontal: '*',
        head_row_cross: '*',
        head_row_right: '*',
        mid_left: '*',
        mid_vertical: '*',
        mid_right: '*',
        row_left: '*',
        row_horizontal: '*',
        row_cross: '*',
        row_right: '*',
        foot_row_left: '*',
        foot_row_horizontal: '*',
        foot_row_cross: '*',
        foot_row_right: '*',
        foot_left: '*',
        foot_vertical: '*',
        foot_right: '*',
        bottom_left: '*',
        bottom: '*',
        bottom_divider: '*',
        bottom_right: '*',
        ascii: true,
    };

    // Custom box should be unchanged
    let result = custom.substitute(false, false);
    assert_eq!(result, custom);

    // Custom ascii() box stays custom even with legacy_windows
    let result = custom.substitute(true, false);
    assert_eq!(result, custom);

    // Custom ascii() box stays custom with ascii_only (since it is ascii())
    let result = custom.substitute(false, true);
    assert_eq!(result, custom);

    // Non-ascii() custom box becomes ascii() when ascii_only=true
    let custom_unicode = Box {
        ascii: false,
        ..custom
    };
    let result = custom_unicode.substitute(false, true);
    assert_eq!(result, ascii());
}

#[test]
fn test_get_plain_headed_box() {
    assert_eq!(heavy_head().get_plain_headed_box(), square());
    assert_eq!(square_double_head().get_plain_headed_box(), square());
    assert_eq!(minimal_double_head().get_plain_headed_box(), minimal());
    assert_eq!(minimal_heavy_head().get_plain_headed_box(), minimal());
    assert_eq!(ascii_double_head().get_plain_headed_box(), ascii2());

    // Plain boxes return themselves
    assert_eq!(square().get_plain_headed_box(), square());
    assert_eq!(ascii().get_plain_headed_box(), ascii());
    assert_eq!(rounded().get_plain_headed_box(), rounded());
}

#[test]
fn test_get_plain_headed_box_custom() {
    // Custom boxes should be returned unchanged
    let custom = Box {
        top_left: '#',
        top: '#',
        top_divider: '#',
        top_right: '#',
        head_left: '#',
        head_vertical: '#',
        head_right: '#',
        head_row_left: '#',
        head_row_horizontal: '#',
        head_row_cross: '#',
        head_row_right: '#',
        mid_left: '#',
        mid_vertical: '#',
        mid_right: '#',
        row_left: '#',
        row_horizontal: '#',
        row_cross: '#',
        row_right: '#',
        foot_row_left: '#',
        foot_row_horizontal: '#',
        foot_row_cross: '#',
        foot_row_right: '#',
        foot_left: '#',
        foot_vertical: '#',
        foot_right: '#',
        bottom_left: '#',
        bottom: '#',
        bottom_divider: '#',
        bottom_right: '#',
        ascii: true,
    };
    assert_eq!(custom.get_plain_headed_box(), custom);
}

#[test]
fn test_all_boxes_defined() {
    // Verify all 19 boxes are defined and have the expected ascii flag
    assert!(ascii().ascii);
    assert!(ascii2().ascii);
    assert!(ascii_double_head().ascii);
    assert!(!square().ascii);
    assert!(!square_double_head().ascii);
    assert!(!minimal().ascii);
    assert!(!minimal_heavy_head().ascii);
    assert!(!minimal_double_head().ascii);
    assert!(!simple().ascii);
    assert!(!simple_head().ascii);
    assert!(!simple_heavy().ascii);
    assert!(!horizontals().ascii);
    assert!(!rounded().ascii);
    assert!(!heavy().ascii);
    assert!(!heavy_edge().ascii);
    assert!(!heavy_head().ascii);
    assert!(!double().ascii);
    assert!(!double_edge().ascii);
    assert!(markdown().ascii);
}

#[test]
fn test_box_equality() {
    // Each box should equal itself
    assert_eq!(square(), square());
    assert_eq!(rounded(), rounded());

    // Different boxes should not be equal
    assert_ne!(square(), rounded());
    assert_ne!(ascii(), markdown());
}

#[test]
fn test_single_column() {
    // Single column should work without dividers
    assert_eq!(square().get_top(&[5]), "┌─────┐");
    assert_eq!(square().get_bottom(&[5]), "└─────┘");
    assert_eq!(square().get_row(&[5], RowLevel::Row, true), "├─────┤");
}

#[test]
fn test_empty_widths() {
    // Empty widths should produce minimal output
    assert_eq!(square().get_top(&[]), "┌┐");
    assert_eq!(square().get_bottom(&[]), "└┘");
    assert_eq!(square().get_row(&[], RowLevel::Row, true), "├┤");
}

#[test]
fn test_zero_width_column() {
    // Zero-width columns are valid
    assert_eq!(square().get_top(&[0, 3, 0]), "┌┬───┬┐");
}

#[test]
fn test_markdown_box() {
    // Markdown has space for top/bottom (no visible borders)
    // top_left=' ', top=' ', top_right=' '
    // For width 5: ' ' + 5*' ' + ' ' = 7 spaces
    assert_eq!(markdown().get_top(&[5]), "       ");
    assert_eq!(
        markdown().get_row(&[5, 5], RowLevel::Head, true),
        "|-----|-----|"
    );
    assert_eq!(markdown().get_bottom(&[5]), "       ");
    // With two columns of width 5: ' ' + '     ' + ' ' + '     ' + ' ' = 13 chars
    assert_eq!(markdown().get_top(&[5, 5]), "             ");
}

#[test]
fn test_horizontals_box() {
    // horizontals() has lines at top and bottom, no corner chars
    // top_left=' ', top='─', top_divider='─', top_right=' '
    assert_eq!(horizontals().get_top(&[5]), " ───── ");
    assert_eq!(horizontals().get_bottom(&[5]), " ───── ");
}

#[test]
fn test_minimal_box() {
    // minimal() has mostly spaces, dividers only appear between columns
    // top_left=' ', top=' ', top_divider='╷', top_right=' '
    // For width 3: ' ' + 3*' ' + ' ' = 5 spaces (no divider for single column)
    assert_eq!(minimal().get_top(&[3]), "     ");
    assert_eq!(minimal().get_bottom(&[3]), "     ");
    // With two columns: ' ' + '   ' + '╷' + '   ' + ' '
    assert_eq!(minimal().get_top(&[3, 3]), "    ╷    ");
}

#[test]
fn test_simple_box() {
    // simple() has mostly spaces
    assert_eq!(simple().get_top(&[5]), "       ");
    assert_eq!(simple().get_row(&[5], RowLevel::Head, true), " ───── ");
}

#[test]
fn test_double_headed_boxes() {
    // Verify the header row uses different characters
    assert_eq!(
        square_double_head().get_row(&[3], RowLevel::Head, true),
        "╞═══╡"
    );
    assert_eq!(
        ascii_double_head().get_row(&[3], RowLevel::Head, true),
        "+===+"
    );
}

#[test]
fn test_heavy_variations() {
    // heavy_head() has thick header, thin body
    assert_eq!(heavy_head().get_top(&[3]), "┏━━━┓");
    assert_eq!(heavy_head().get_row(&[3], RowLevel::Row, true), "├───┤");

    // heavy_edge() has thick edges, thin interior
    assert_eq!(heavy_edge().get_top(&[3, 3]), "┏━━━┯━━━┓");
    assert_eq!(
        heavy_edge().get_row(&[3, 3], RowLevel::Row, true),
        "┠───┼───┨"
    );
}
