use rich_rs::ansi::AnsiDecoder;
use rich_rs::color::SimpleColor;


#[test]
fn test_decode_line_strips_ansi_and_adds_spans() {
    let mut decoder = AnsiDecoder::new();
    let text = decoder.decode_line("\x1b[1mBold\x1b[0m Normal");
    assert_eq!(text.plain_text(), "Bold Normal");
    assert_eq!(text.spans().len(), 1);
    assert_eq!(text.spans()[0].start, 0);
    assert_eq!(text.spans()[0].end, 4);
    assert_eq!(text.spans()[0].style.bold, Some(true));
}

#[test]
fn test_decode_line_extended_truecolor() {
    let mut decoder = AnsiDecoder::new();
    let text = decoder.decode_line("\x1b[38;2;255;0;0mRed\x1b[0m");
    assert_eq!(text.plain_text(), "Red");
    assert_eq!(text.spans().len(), 1);
    assert_eq!(
        text.spans()[0].style.color,
        Some(SimpleColor::Rgb { r: 255, g: 0, b: 0 })
    );
}

#[test]
fn test_decode_persists_style_across_lines() {
    let mut decoder = AnsiDecoder::new();
    let lines = decoder.decode("\x1b[31mred\nstill");
    assert_eq!(lines.len(), 2);
    assert_eq!(lines[0].plain_text(), "red");
    assert_eq!(lines[1].plain_text(), "still");
    assert_eq!(lines[0].spans().len(), 1);
    assert_eq!(lines[1].spans().len(), 1);
    assert_eq!(lines[1].spans()[0].style.color, Some(SimpleColor::Standard(1)));
}

#[test]
fn test_decode_line_after_carriage_return() {
    let mut decoder = AnsiDecoder::new();
    let text = decoder.decode_line("abc\rdef");
    assert_eq!(text.plain_text(), "def");
}

#[test]
fn test_decode_splits_on_carriage_return_like_python() {
    let mut decoder = AnsiDecoder::new();
    let lines = decoder.decode("abc\rdef");
    assert_eq!(lines.len(), 2);
    assert_eq!(lines[0].plain_text(), "abc");
    assert_eq!(lines[1].plain_text(), "def");
}

#[test]
fn trailing_escape_gives_the_text_again_with_the_escape() {
    let mut decoder = AnsiDecoder::new();
    let t = decoder.decode_line("ab\x1b");
    assert_eq!(t.plain_text(), "abab\x1b");
    let mut decoder = AnsiDecoder::new();
    assert_eq!(decoder.decode_line("\x1b").plain_text(), "\x1b");
}
