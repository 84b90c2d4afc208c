use rich_rs::cells::{cell_len, char_width, chop_cells, set_cell_size, split_graphemes};

#[test]
fn test_cell_len_ascii() {
    assert_eq!(cell_len("hello"), 5);
    assert_eq!(cell_len(""), 0);
    assert_eq!(cell_len(" "), 1);
    assert_eq!(cell_len("hello world"), 11);
}

#[test]
fn test_cell_len_cjk() {
    assert_eq!(cell_len("你好"), 4);
    assert_eq!(cell_len("日本語"), 6);
    assert_eq!(cell_len("中文测试"), 8);
}

#[test]
fn test_cell_len_mixed() {
    assert_eq!(cell_len("hello你好"), 9); // 5 + 4
    assert_eq!(cell_len("a中b"), 4); // 1 + 2 + 1
}

#[test]
fn test_cell_len_emoji() {
    // Most emoji are 2 cells wide
    assert_eq!(cell_len("😀"), 2);
    assert_eq!(cell_len("🎉"), 2);
}

#[test]
fn test_char_width() {
    assert_eq!(char_width('a'), 1);
    assert_eq!(char_width('中'), 2);
    assert_eq!(char_width('😀'), 2);
    assert_eq!(char_width(' '), 1);
}

#[test]
fn test_set_cell_size_exact() {
    // Text already exactly the right size
    assert_eq!(set_cell_size("hello", 5), "hello");
    assert_eq!(set_cell_size("你好", 4), "你好");
}

#[test]
fn test_set_cell_size_pad() {
    // Text shorter than width - pad with spaces
    assert_eq!(set_cell_size("hello", 10), "hello     ");
    assert_eq!(set_cell_size("hi", 5), "hi   ");
    assert_eq!(set_cell_size("", 3), "   ");
    assert_eq!(set_cell_size("你好", 6), "你好  ");
}

#[test]
fn test_set_cell_size_truncate_ascii() {
    // ASCII truncation
    assert_eq!(set_cell_size("hello world", 5), "hello");
    assert_eq!(set_cell_size("hello", 3), "hel");
    assert_eq!(set_cell_size("abcdef", 1), "a");
}

#[test]
fn test_set_cell_size_truncate_cjk() {
    // CJK truncation - exact boundary
    assert_eq!(set_cell_size("你好世界", 4), "你好");
    assert_eq!(set_cell_size("你好世界", 8), "你好世界");
}

#[test]
fn test_set_cell_size_truncate_double_width_boundary() {
    // Truncation at double-width character boundary - add space
    assert_eq!(set_cell_size("你好世界", 5), "你好 "); // Can't fit 世 (2 cells), add 1 space
    assert_eq!(set_cell_size("你好世界", 3), "你 "); // Can't fit 好 (2 cells), add 1 space
    assert_eq!(set_cell_size("你好世界", 1), " "); // Can't fit 你 (2 cells), add 1 space
}

#[test]
fn test_set_cell_size_mixed() {
    // Mixed ASCII and CJK
    assert_eq!(set_cell_size("a你b好c", 4), "a你b");
    assert_eq!(set_cell_size("a你b好c", 3), "a你");
    assert_eq!(set_cell_size("a你b好c", 2), "a ");
}

#[test]
fn test_set_cell_size_zero_width() {
    assert_eq!(set_cell_size("hello", 0), "");
    assert_eq!(set_cell_size("你好", 0), "");
    assert_eq!(set_cell_size("", 0), "");
}

#[test]
fn test_set_cell_size_empty() {
    assert_eq!(set_cell_size("", 5), "     ");
    assert_eq!(set_cell_size("", 0), "");
}

#[test]
fn test_set_cell_size_emoji() {
    assert_eq!(set_cell_size("😀😀", 4), "😀😀");
    assert_eq!(set_cell_size("😀😀", 3), "😀 "); // Can't fit second emoji
    assert_eq!(set_cell_size("😀😀", 2), "😀");
    assert_eq!(set_cell_size("😀😀", 1), " "); // Can't fit any emoji
}

#[test]
fn test_chop_cells_ascii() {
    assert_eq!(chop_cells("hello", 3), vec!["hel", "lo"]);
    assert_eq!(chop_cells("hello", 5), vec!["hello"]);
    assert_eq!(chop_cells("hello", 10), vec!["hello"]);
    assert_eq!(chop_cells("abcdef", 2), vec!["ab", "cd", "ef"]);
}

#[test]
fn test_chop_cells_cjk() {
    assert_eq!(chop_cells("你好世界", 4), vec!["你好", "世界"]);
    assert_eq!(chop_cells("你好世界", 8), vec!["你好世界"]);
    assert_eq!(chop_cells("你好世界", 2), vec!["你", "好", "世", "界"]);
}

#[test]
fn test_chop_cells_cjk_odd_width() {
    // With odd width, double-width chars that don't fit start new line
    assert_eq!(chop_cells("你好世界", 5), vec!["你好", "世界"]);
    assert_eq!(chop_cells("你好世界", 3), vec!["你", "好", "世", "界"]);
}

#[test]
fn test_chop_cells_mixed() {
    assert_eq!(chop_cells("a你b好", 3), vec!["a你", "b好"]);
    assert_eq!(chop_cells("a你b好", 4), vec!["a你b", "好"]);
}

#[test]
fn test_chop_cells_empty() {
    assert_eq!(chop_cells("", 5), vec![""]);
    assert_eq!(chop_cells("", 0), vec![""]);
}

#[test]
fn test_chop_cells_zero_width() {
    // Each character becomes its own line
    assert_eq!(chop_cells("abc", 0), vec!["a", "b", "c"]);
    assert_eq!(chop_cells("你好", 0), vec!["你", "好"]);
}

#[test]
fn test_chop_cells_emoji() {
    assert_eq!(chop_cells("😀😀😀", 4), vec!["😀😀", "😀"]);
    assert_eq!(chop_cells("😀😀", 2), vec!["😀", "😀"]);
    assert_eq!(chop_cells("a😀b", 3), vec!["a😀", "b"]);
}

#[test]
fn test_split_graphemes_ascii() {
    assert_eq!(split_graphemes("hello"), vec!["h", "e", "l", "l", "o"]);
}

#[test]
fn test_split_graphemes_cjk() {
    assert_eq!(split_graphemes("你好"), vec!["你", "好"]);
}

#[test]
fn test_split_graphemes_mixed() {
    assert_eq!(split_graphemes("a你b"), vec!["a", "你", "b"]);
}

#[test]
fn test_split_graphemes_empty() {
    let empty: Vec<&str> = vec![];
    assert_eq!(split_graphemes(""), empty);
}

#[test]
fn test_split_graphemes_emoji() {
    assert_eq!(split_graphemes("😀hi"), vec!["😀", "h", "i"]);
}

#[test]
fn test_chop_cells_single_char_per_line() {
    assert_eq!(chop_cells("abc", 1), vec!["a", "b", "c"]);
}

#[test]
fn test_chop_cells_wide_char_exceeds_width() {
    // When a wide character doesn't fit in width, it should be placed on its own line
    // without creating a leading empty line
    assert_eq!(chop_cells("你", 1), vec!["你"]);
    assert_eq!(chop_cells("😀", 1), vec!["😀"]);
    assert_eq!(chop_cells("你好", 1), vec!["你", "好"]);
    // Mixed: ASCII fits, then CJK overflows
    assert_eq!(chop_cells("a你", 1), vec!["a", "你"]);
}

#[test]
fn test_half_block_width() {
    // Half-block character used in ColorBox
    assert_eq!(cell_len("▄"), 1, "half-block should be 1 cell");
    assert_eq!(cell_len("▄▄▄"), 3, "three half-blocks should be 3 cells");
}

#[test]
fn test_chop_cells_joins_back() {
    for width in 0..6 {
        let text = "hello wide \u{4f60}\u{597d} world";
        let lines = chop_cells(text, width);
        assert_eq!(lines.concat(), text);
    }
    assert_eq!(chop_cells("", 3).concat(), "");
}
