//! Laying out Markdown: the parser events read element by element, inline content
//! gathered into styled text, and each block rendered as it closes.
use vstd::prelude::*;
use crate::markdown::{
    MdEvent, MdEventView, MdKind, MdTag, events_view, code, code_style, emphasis, emphasis_style,
    strong, strong_style, strikethrough, strikethrough_style, link, link_style, link_url,
    link_url_style,
};
use crate::markdown::{
    heading1_style, heading2_style, heading3_style, heading4_style, heading5_style,
    heading6_style, block_quote_style, block_quote_border_style, item_bullet_style,
    item_number_style, horizontal_rule_style,
};
use crate::align::{AlignMethod, align_spec, vertical_height};
use crate::console::{Console, ConsoleOptions, OptionsModel};
use crate::measure::{Measurement, measure_text, union_all};
use crate::padding::{PaddingModel, padding_render_spec, block_width, sides};
use crate::segment::{Segment, SegView, ControlType, segs_view, lines_view, split_lines_spec, split_and_crop_spec, set_shape_spec, max_line_width, segs_text};
use crate::strs::{repeat_spec, decimal_spec, push_repeat, repeat_char, usize_to_string, push_str, str_chars, sub_string};
use crate::segment::{copy_segs, seg_view};
use crate::padding::{frame_lines, padded_sides};
use crate::align::align_lines;
use crate::cells::cell_len;
use crate::Renderable;
use crate::markdown::{heading1, heading2, heading3, heading4, heading5, heading6, block_quote, block_quote_border, item_bullet, item_number, horizontal_rule};
use crate::cells::unicode_str_width;
use crate::wrap::satw;
use crate::style::{Style, combine_spec, null_style};
use crate::text::{Text, TextModel, render_text_spec};

verus! {

broadcast use vstd::string::group_string_axioms;

/// The parser's state beyond the text: the stack of nested inline styles and the
/// address of the link being read.
pub struct MdCtx {
    /// Nested styles, the current one last.
    pub stack: Seq<Style>,
    /// The address of the open link.
    pub link: Option<Seq<char>>,
}

/// The current inline style: the top of the stack (no style on an empty stack).
pub open spec fn cur_style(c: MdCtx) -> Style {
    if c.stack.len() > 0 { c.stack.last() } else { null_style() }
}

/// A style pushed on the stack, combined with the current one.
pub open spec fn push_st(c: MdCtx, s: Style) -> MdCtx {
    MdCtx { stack: c.stack.push(combine_spec(cur_style(c), s)), ..c }
}

/// The top style popped, the bottom one kept.
pub open spec fn pop_st(c: MdCtx) -> MdCtx {
    if c.stack.len() > 1 { MdCtx { stack: c.stack.drop_last(), ..c } } else { c }
}

/// The parser's starting state: one plain style, no link.
pub open spec fn start_ctx() -> MdCtx {
    MdCtx { stack: seq![null_style()], link: None }
}

/// Text with a string appended, styled when a style is given; unchanged when the
/// result would not fit in memory.
pub open spec fn app(t: TextModel, s: Seq<char>, st: Option<Style>) -> TextModel {
    if t.plain.len() + s.len() <= usize::MAX {
        TextModel {
            plain: t.plain + s,
            spans: match st {
                Some(x) => if s.len() > 0 {
                    t.spans.push((t.plain.len() as usize, (t.plain.len() + s.len()) as usize, x))
                } else {
                    t.spans
                },
                None => t.spans,
            },
            ..t
        }
    } else {
        t
    }
}

/// Empty text.
pub open spec fn empty_text() -> TextModel {
    TextModel { plain: Seq::empty(), style: None, spans: Seq::empty(), justify: None, overflow: None, no_wrap: None }
}

/// An image being read: its address and the alternative text so far.
pub type ImgState = Option<(Seq<char>, Seq<char>)>;

/// The picture mark that stands for an image.
pub open spec fn picture_mark() -> Seq<char> {
    seq!['\u{1F306}', ' ']
}

/// An image as text: the picture mark, then the alternative text, or the address in
/// the address style when there is none.
pub open spec fn image_text(t: TextModel, url: Seq<char>, alt: Seq<char>) -> TextModel {
    let t1 = app(t, picture_mark(), None);
    if alt.len() > 0 { app(t1, alt, None) } else { app(t1, url, Some(link_url_style())) }
}

/// The end of a link: its address in brackets after the text, in the address style,
/// unless terminal hyperlinks are on.
pub open spec fn link_tail(t: TextModel, url: Option<Seq<char>>, h: bool) -> TextModel {
    if !h && url is Some {
        app(app(app(t, seq![' ', '('], Some(link_url_style())), url->0, Some(link_url_style())), seq![')'], Some(link_url_style()))
    } else {
        t
    }
}

/// What one event does to inline content. While an image is open only its text is
/// gathered, until its end.
pub open spec fn inline_step(e: MdEventView, t: TextModel, c: MdCtx, img: ImgState, h: bool) -> (TextModel, MdCtx, ImgState) {
    match img {
        Some(p) => if e.0 == MdKind::Text {
            (t, c, Some((p.0, p.1 + e.2)))
        } else if e.0 == MdKind::End && e.1 == MdTag::Image {
            (image_text(t, p.0, p.1), c, None)
        } else {
            (t, c, img)
        },
        None => if e.0 == MdKind::Text {
            (app(t, e.2, Some(cur_style(c))), c, None)
        } else if e.0 == MdKind::Code {
            (app(t, e.2, Some(combine_spec(cur_style(c), code_style()))), c, None)
        } else if e.0 == MdKind::SoftBreak {
            (app(t, seq![' '], None), c, None)
        } else if e.0 == MdKind::HardBreak {
            (app(t, seq!['\n'], None), c, None)
        } else if e.0 == MdKind::Start {
            match e.1 {
                MdTag::Emphasis => (t, push_st(c, emphasis_style()), None),
                MdTag::Strong => (t, push_st(c, strong_style()), None),
                MdTag::Strikethrough => (t, push_st(c, strikethrough_style()), None),
                MdTag::Link => (t, push_st(MdCtx { link: Some(e.2), ..c }, link_style()), None),
                MdTag::Image => (t, c, Some((e.2, Seq::empty()))),
                _ => (t, c, None),
            }
        } else if e.0 == MdKind::End {
            match e.1 {
                MdTag::Emphasis => (t, pop_st(c), None),
                MdTag::Strong => (t, pop_st(c), None),
                MdTag::Strikethrough => (t, pop_st(c), None),
                MdTag::Link => (link_tail(t, c.link, h), pop_st(MdCtx { link: None, ..c }), None),
                _ => (t, c, None),
            }
        } else {
            (t, c, None)
        },
    }
}

/// Inline content read from event `i` up to the end of the element `end` (consumed),
/// or to the last event: the text, the state after, and where reading stopped. An image
/// still open at the last event is written out.
pub open spec fn inline_run(evs: Seq<MdEventView>, i: int, end: MdTag, t: TextModel, c: MdCtx, img: ImgState, h: bool) -> (TextModel, MdCtx, int)
    decreases evs.len() - i,
{
    if i < 0 || i >= evs.len() {
        match img {
            Some(p) => (image_text(t, p.0, p.1), c, i),
            None => (t, c, i),
        }
    } else if img is None && evs[i].0 == MdKind::End && evs[i].1 == end {
        (t, c, i + 1)
    } else {
        let s = inline_step(evs[i], t, c, img, h);
        inline_run(evs, i + 1, end, s.0, s.1, s.2, h)
    }
}


/// A newline segment.
pub open spec fn nl() -> SegView {
    (seq!['\n'], None::<Style>, None::<ControlType>)
}

/// Padding given for code blocks, as (top, right, bottom, left).
pub type PadOpt = Option<(usize, usize, usize, usize)>;

/// A paragraph: its text rendered, then a newline.
pub open spec fn paragraph_segs(t: TextModel, o: OptionsModel) -> Seq<SegView> {
    render_text_spec(t, o).push(nl())
}

/// Text with a style laid over all of it (nothing on empty text).
pub open spec fn stylize_all(t: TextModel, st: Style) -> TextModel {
    if 0 < t.plain.len() { TextModel { spans: t.spans.push((0usize, t.plain.len() as usize, st)), ..t } } else { t }
}

/// The style of a heading of the given level (the sixth for any other).
pub open spec fn heading_style_of(n: Option<u64>) -> Style {
    match n {
        Some(1) => heading1_style(),
        Some(2) => heading2_style(),
        Some(3) => heading3_style(),
        Some(4) => heading4_style(),
        Some(5) => heading5_style(),
        _ => heading6_style(),
    }
}

/// Text centred in the available width: rendered as wide as it needs (at most the
/// width), its lines made even, then each line centred.
pub open spec fn center_segs(t: TextModel, o: OptionsModel) -> Seq<SegView> {
    let aw = o.max_width;
    let m = measure_text(t.plain).maximum;
    let cw: usize = if m < aw { m } else { aw };
    let ro = OptionsModel { min_width: cw, max_width: cw, height: None, ..o };
    let lines = split_and_crop_spec(render_text_spec(t, ro), cw as nat, None, true, false);
    let w = satw(max_line_width(lines));
    align_spec(set_shape_spec(lines, w, lines.len(), None), aw as nat, w, lines.len(), AlignMethod::Center, true, null_style(), None, vertical_height(None, o))
}

/// A heading: its text in the heading's style; the first level centred, the others
/// rendered and ended by a newline.
pub open spec fn heading_segs(n: Option<u64>, t: TextModel, o: OptionsModel) -> Seq<SegView> {
    let t2 = stylize_all(t, heading_style_of(n));
    if n == Some(1u64) { center_segs(t2, o) } else { render_text_spec(t2, o).push(nl()) }
}

/// Unstyled text.
pub open spec fn plain_text(s: Seq<char>) -> TextModel {
    TextModel { plain: s, ..empty_text() }
}

/// The padding that code blocks get: the given sides, no style, not expanding.
pub open spec fn code_padding(d: (usize, usize, usize, usize)) -> PaddingModel {
    PaddingModel { top: d.0, right: d.1, bottom: d.2, left: d.3, style: null_style(), expand: false }
}

/// The options a padded code block renders in: the room between the sides.
pub open spec fn code_options(d: (usize, usize, usize, usize), o: OptionsModel, m: nat) -> OptionsModel {
    let p = code_padding(d);
    let w = block_width(p, o.max_width as nat, m);
    let cw = sides(p.left as nat, p.right as nat, w).2;
    OptionsModel { min_width: cw as usize, max_width: cw as usize, ..o }
}

/// A code block: the code as plain text, framed by the padding when one is given,
/// then a newline.
pub open spec fn code_segs(code: Seq<char>, pad: PadOpt, o: OptionsModel) -> Seq<SegView> {
    let t = plain_text(code);
    match pad {
        None => render_text_spec(t, o).push(nl()),
        Some(d) => {
            let m = measure_text(code).maximum as nat;
            padding_render_spec(code_padding(d), o, m, render_text_spec(t, code_options(d, o, m))).push(nl())
        },
    }
}

/// Code without one final newline.
pub open spec fn drop_nl(code: Seq<char>) -> Seq<char> {
    if code.len() > 0 && code.last() == '\n' { code.drop_last() } else { code }
}

/// A segment inside a quote: its text, in its style combined with the quote style
/// (the quote style alone when it has none).
pub open spec fn quote_seg(s: SegView) -> SegView {
    (s.0, Some(match s.1 { Some(x) => combine_spec(x, block_quote_style()), None => block_quote_style() }), None::<ControlType>)
}

/// One quoted line: the border, the restyled segments, a newline.
pub open spec fn quote_line(line: Seq<SegView>) -> Seq<SegView> {
    seq![(seq!['\u{258C}', ' '], Some(block_quote_border_style()), None::<ControlType>)] + line.map_values(|s: SegView| quote_seg(s)) + seq![nl()]
}

/// Quoted lines.
pub open spec fn quote_lines(ls: Seq<Seq<SegView>>) -> Seq<SegView>
    decreases ls.len(),
{
    if ls.len() == 0 { Seq::empty() } else { quote_lines(ls.drop_last()) + quote_line(ls.last()) }
}

/// A block quote of rendered blocks: each block's lines quoted.
pub open spec fn quote_segs(bs: Seq<Seq<SegView>>) -> Seq<SegView>
    decreases bs.len(),
{
    if bs.len() == 0 { Seq::empty() } else { quote_segs(bs.drop_last()) + quote_lines(split_lines_spec(bs.last())) }
}

/// The options for content `k` cells narrower (none left when it is wider).
pub open spec fn narrower(o: OptionsModel, k: nat) -> OptionsModel {
    OptionsModel { max_width: if o.max_width >= k { (o.max_width - k) as usize } else { 0usize }, ..o }
}

/// `n` spaces.
pub open spec fn spaces(n: nat) -> Seq<char> {
    repeat_spec(' ', n)
}

/// A number right-aligned in `w` cells.
pub open spec fn right_number(n: nat, w: nat) -> Seq<char> {
    let d = decimal_spec(n);
    (if w > d.len() { spaces((w - d.len()) as nat) } else { Seq::empty() }) + d
}

/// A number plus a count, held at the largest `usize`.
pub open spec fn sat_usize(a: usize, k: nat) -> nat {
    if a + k > usize::MAX { usize::MAX as nat } else { (a + k) as nat }
}

/// The mark before item `k` of a list of `n` items: its number (from `start`),
/// right-aligned to the widest number and set in spaces, for an ordered list; a bullet
/// in spaces for another.
pub open spec fn bullet(ordered: bool, start: u64, k: nat, n: nat) -> Seq<char> {
    if ordered {
        seq![' '] + right_number(sat_usize(start as usize, k), decimal_spec(sat_usize(start as usize, n)).len()) + seq![' ']
    } else {
        seq![' ', '\u{2022}', ' ']
    }
}

/// The lines of an item's rendered blocks, in order.
pub open spec fn item_lines(bs: Seq<Seq<SegView>>) -> Seq<Seq<SegView>>
    decreases bs.len(),
{
    if bs.len() == 0 { Seq::empty() } else { item_lines(bs.drop_last()) + split_lines_spec(bs.last()) }
}

/// An item's lines: the first after the mark in its style, the others after as many
/// spaces as the mark is wide; each ended by a newline.
pub open spec fn marked_lines(ls: Seq<Seq<SegView>>, mark: Seq<char>, st: Style, w: nat) -> Seq<SegView>
    decreases ls.len(),
{
    if ls.len() == 0 {
        Seq::empty()
    } else {
        let prefix: SegView = if ls.len() == 1 { (mark, Some(st), None::<ControlType>) } else { (spaces(w), None::<Style>, None::<ControlType>) };
        marked_lines(ls.drop_last(), mark, st, w) + seq![prefix] + ls.last() + seq![nl()]
    }
}

/// The style of list marks.
pub open spec fn mark_style(ordered: bool) -> Style {
    if ordered { item_number_style() } else { item_bullet_style() }
}

/// The items of a list (each its rendered blocks) with their marks, for a list of `n`
/// items.
pub open spec fn list_items_segs(items: Seq<Seq<Seq<SegView>>>, ordered: bool, start: u64, n: nat) -> Seq<SegView>
    decreases items.len(),
{
    if items.len() == 0 {
        Seq::empty()
    } else {
        let k = (items.len() - 1) as nat;
        let mark = bullet(ordered, start, k, n);
        list_items_segs(items.drop_last(), ordered, start, n)
            + marked_lines(item_lines(items.last()), mark, mark_style(ordered), unicode_str_width(mark) as nat)
    }
}

/// The options item `k` of a list renders in, when the list's marks are known: the
/// width narrowed by the item's mark.
pub open spec fn item_options(o: OptionsModel, marks: Option<(bool, u64, nat)>, k: nat) -> OptionsModel {
    match marks {
        Some(m) => narrower(o, unicode_str_width(bullet(m.0, m.1, k, m.2)) as nat),
        None => o,
    }
}

/// A horizontal rule: a line across the width in the rule style, ended twice.
pub open spec fn rule_segs(o: OptionsModel) -> Seq<SegView> {
    seq![(repeat_spec('\u{2500}', o.max_width as nat), Some(horizontal_rule_style()), None::<ControlType>), nl(), nl()]
}


/// A cell's characters (none past the end of its row).
pub open spec fn cell_chars(all: Seq<Seq<TextModel>>, k: int, j: int) -> Seq<char> {
    if 0 <= j < all[k].len() { all[k][j].plain } else { Seq::empty() }
}

/// The widest of column `j`'s cells in the first `k` rows.
pub open spec fn col_width(all: Seq<Seq<TextModel>>, j: int, k: int) -> nat
    decreases k,
{
    if k <= 0 {
        0
    } else {
        let w = unicode_str_width(cell_chars(all, k - 1, j)) as nat;
        let p = col_width(all, j, k - 1);
        if w > p { w } else { p }
    }
}

/// A cell's characters set in `w` cells as its column's alignment says: right (`r`),
/// centre (`c`), else left.
pub open spec fn pad_cell(s: Seq<char>, w: nat, a: char) -> Seq<char> {
    let cw = unicode_str_width(s) as nat;
    let extra: nat = if w > cw { (w - cw) as nat } else { 0 };
    if a == 'r' {
        spaces(extra) + s
    } else if a == 'c' {
        spaces(extra / 2) + s + spaces((extra - extra / 2) as nat)
    } else {
        s + spaces(extra)
    }
}

/// The alignment letter of column `j` (`n` where none is given).
pub open spec fn col_align(aligns: Seq<char>, j: int) -> char {
    if 0 <= j < aligns.len() { aligns[j] } else { 'n' }
}

/// The first `j` cells of row `k`, each set in its column's width, between bars.
pub open spec fn row_line(all: Seq<Seq<TextModel>>, k: int, aligns: Seq<char>, j: int) -> Seq<char>
    decreases j,
{
    if j <= 0 {
        Seq::empty()
    } else {
        row_line(all, k, aligns, j - 1)
            + (if j > 1 { seq![' ', '\u{2502}', ' '] } else { Seq::empty() })
            + pad_cell(cell_chars(all, k, j - 1), col_width(all, j - 1, all.len() as int), col_align(aligns, j - 1))
    }
}

/// The first `k` rows, `n` columns each, the header row in the strong style.
pub open spec fn table_lines(all: Seq<Seq<TextModel>>, aligns: Seq<char>, n: int, k: int) -> Seq<SegView>
    decreases k,
{
    if k <= 0 {
        Seq::empty()
    } else {
        table_lines(all, aligns, n, k - 1)
            + seq![(row_line(all, k - 1, aligns, n), if k == 1 { Some(strong_style()) } else { None::<Style> }, None::<ControlType>), nl()]
    }
}

/// A table: the header row, then the body rows, as many columns as headers, then a
/// newline.
pub open spec fn table_segs(heads: Seq<TextModel>, rows: Seq<Seq<TextModel>>, aligns: Seq<char>) -> Seq<SegView> {
    let all = seq![heads] + rows;
    table_lines(all, aligns, heads.len() as int, all.len() as int).push(nl())
}

/// Code gathered from event `i` to the end of the code block (consumed).
pub open spec fn code_run(evs: Seq<MdEventView>, i: int, code: Seq<char>) -> (Seq<char>, int)
    decreases evs.len() - i,
{
    if i < 0 || i >= evs.len() {
        (code, i)
    } else if evs[i].0 == MdKind::Text || evs[i].0 == MdKind::Code {
        code_run(evs, i + 1, code + evs[i].2)
    } else if evs[i].0 == MdKind::End && evs[i].1 == MdTag::CodeBlock {
        (code, i + 1)
    } else {
        code_run(evs, i + 1, code)
    }
}

/// Cells read from event `i` up to the end of a row (`stop`; consumed), appended to
/// `cells`.
pub open spec fn cells_run(evs: Seq<MdEventView>, i: int, stop: MdTag, c: MdCtx, h: bool, cells: Seq<TextModel>) -> (Seq<TextModel>, MdCtx, int)
    decreases evs.len() - i,
{
    if i < 0 || i >= evs.len() {
        (cells, c, i)
    } else if evs[i].0 == MdKind::Start && evs[i].1 == MdTag::TableCell {
        let r = inline_run(evs, i + 1, MdTag::TableCell, empty_text(), c, None, h);
        if i < r.2 <= evs.len() { cells_run(evs, r.2, stop, r.1, h, cells.push(r.0)) } else { (cells.push(r.0), r.1, r.2) }
    } else if evs[i].0 == MdKind::End && evs[i].1 == stop {
        (cells, c, i + 1)
    } else {
        cells_run(evs, i + 1, stop, c, h, cells)
    }
}

/// A table read from event `i` to its end (consumed): the header cells, the body rows
/// that have cells, the state after, where reading stopped.
pub open spec fn table_run(evs: Seq<MdEventView>, i: int, c: MdCtx, h: bool, heads: Seq<TextModel>, rows: Seq<Seq<TextModel>>) -> (Seq<TextModel>, Seq<Seq<TextModel>>, MdCtx, int)
    decreases evs.len() - i,
{
    if i < 0 || i >= evs.len() {
        (heads, rows, c, i)
    } else if evs[i].0 == MdKind::Start && evs[i].1 == MdTag::TableHead {
        let r = cells_run(evs, i + 1, MdTag::TableHead, c, h, heads);
        if i < r.2 <= evs.len() { table_run(evs, r.2, r.1, h, r.0, rows) } else { (r.0, rows, r.1, r.2) }
    } else if evs[i].0 == MdKind::Start && evs[i].1 == MdTag::TableRow {
        let r = cells_run(evs, i + 1, MdTag::TableRow, c, h, Seq::empty());
        let rows2 = if r.0.len() > 0 { rows.push(r.0) } else { rows };
        if i < r.2 <= evs.len() { table_run(evs, r.2, r.1, h, heads, rows2) } else { (heads, rows2, r.1, r.2) }
    } else if evs[i].0 == MdKind::End && evs[i].1 == MdTag::Table {
        (heads, rows, c, i + 1)
    } else {
        table_run(evs, i + 1, c, h, heads, rows)
    }
}

/// Gathered loose text made a paragraph, when there is any.
pub open spec fn flush(acc: Seq<Seq<SegView>>, inl: TextModel, o: OptionsModel) -> Seq<Seq<SegView>> {
    if inl.plain.len() > 0 { acc.push(paragraph_segs(inl, o)) } else { acc }
}

/// Whether an event is read as loose text inside a container: text, code, breaks, and
/// the starts and ends of emphasis, strong and struck-through text.
pub open spec fn is_loose(e: MdEventView) -> bool {
    ||| e.0 == MdKind::Text
    ||| e.0 == MdKind::Code
    ||| e.0 == MdKind::SoftBreak
    ||| e.0 == MdKind::HardBreak
    ||| ((e.0 == MdKind::Start || e.0 == MdKind::End) && (e.1 == MdTag::Emphasis || e.1 == MdTag::Strong || e.1 == MdTag::Strikethrough))
}

/// What a loose event does to the gathered text and the state.
pub open spec fn loose_step(e: MdEventView, t: TextModel, c: MdCtx) -> (TextModel, MdCtx) {
    if e.0 == MdKind::Text {
        (app(t, e.2, Some(cur_style(c))), c)
    } else if e.0 == MdKind::Code {
        (app(t, e.2, Some(combine_spec(cur_style(c), code_style()))), c)
    } else if e.0 == MdKind::SoftBreak {
        (app(t, seq![' '], None), c)
    } else if e.0 == MdKind::HardBreak {
        (app(t, seq!['\n'], None), c)
    } else if e.0 == MdKind::Start {
        (t, push_st(c, if e.1 == MdTag::Emphasis { emphasis_style() } else if e.1 == MdTag::Strong { strong_style() } else { strikethrough_style() }))
    } else {
        (t, pop_st(c))
    }
}

/// One block read from event `i` (consumed) and rendered: the segments (none for an
/// event that starts no block), the state after, where reading stopped.
pub open spec fn block_at(evs: Seq<MdEventView>, i: int, c: MdCtx, o: OptionsModel, h: bool, pad: PadOpt) -> (Option<Seq<SegView>>, MdCtx, int)
    decreases evs.len() - i, 0int,
{
    if i < 0 || i >= evs.len() {
        (None, c, i + 1)
    } else {
        let e = evs[i];
        if e.0 == MdKind::Start {
            match e.1 {
                MdTag::Paragraph => {
                    let r = inline_run(evs, i + 1, MdTag::Paragraph, empty_text(), c, None, h);
                    (Some(paragraph_segs(r.0, o)), r.1, r.2)
                },
                MdTag::Heading => {
                    let r = inline_run(evs, i + 1, MdTag::Heading, empty_text(), c, None, h);
                    (Some(heading_segs(e.3, r.0, o)), r.1, r.2)
                },
                MdTag::CodeBlock => {
                    let r = code_run(evs, i + 1, Seq::empty());
                    (Some(code_segs(drop_nl(r.0), pad, o)), c, r.1)
                },
                MdTag::BlockQuote => {
                    let r = until_run(evs, i + 1, MdTag::BlockQuote, c, narrower(o, 4), h, pad, empty_text(), Seq::empty());
                    (Some(quote_segs(r.0)), r.1, r.2)
                },
                MdTag::List => {
                    let ordered = e.3 is Some;
                    let start: u64 = match e.3 { Some(x) => x, None => 1 };
                    let n = items_run(evs, i + 1, c, o, h, pad, None, Seq::empty()).0.len();
                    let r = items_run(evs, i + 1, c, o, h, pad, Some((ordered, start, n)), Seq::empty());
                    (Some(list_items_segs(r.0, ordered, start, n)), r.1, r.2)
                },
                MdTag::Table => {
                    let r = table_run(evs, i + 1, c, h, Seq::empty(), Seq::empty());
                    (Some(table_segs(r.0, r.1, e.2)), r.2, r.3)
                },
                _ => (None, c, i + 1),
            }
        } else if e.0 == MdKind::Rule {
            (Some(rule_segs(o)), c, i + 1)
        } else {
            (None, c, i + 1)
        }
    }
}

/// The blocks of a container read from event `i` to its end (`end`; consumed): loose
/// text gathered into paragraphs, every other event read as a block; the rendered
/// blocks, the state after, where reading stopped.
pub open spec fn until_run(evs: Seq<MdEventView>, i: int, end: MdTag, c: MdCtx, o: OptionsModel, h: bool, pad: PadOpt, inl: TextModel, acc: Seq<Seq<SegView>>) -> (Seq<Seq<SegView>>, MdCtx, int)
    decreases evs.len() - i, 1int,
{
    if i < 0 || i >= evs.len() {
        (flush(acc, inl, o), c, i)
    } else if evs[i].0 == MdKind::End && evs[i].1 == end {
        (flush(acc, inl, o), c, i + 1)
    } else if is_loose(evs[i]) {
        let s = loose_step(evs[i], inl, c);
        until_run(evs, i + 1, end, s.1, o, h, pad, s.0, acc)
    } else {
        let acc2 = flush(acc, inl, o);
        let b = block_at(evs, i, c, o, h, pad);
        let acc3 = match b.0 { Some(x) => acc2.push(x), None => acc2 };
        if i < b.2 <= evs.len() { until_run(evs, b.2, end, b.1, o, h, pad, empty_text(), acc3) } else { (acc3, b.1, b.2) }
    }
}

/// The items of a list read from event `i` to its end (consumed), each its rendered
/// blocks (item `k` in `item_options(o, marks, k)`).
pub open spec fn items_run(evs: Seq<MdEventView>, i: int, c: MdCtx, o: OptionsModel, h: bool, pad: PadOpt, marks: Option<(bool, u64, nat)>, acc: Seq<Seq<Seq<SegView>>>) -> (Seq<Seq<Seq<SegView>>>, MdCtx, int)
    decreases evs.len() - i, 1int,
{
    if i < 0 || i >= evs.len() {
        (acc, c, i)
    } else if evs[i].0 == MdKind::Start && evs[i].1 == MdTag::Item {
        let r = until_run(evs, i + 1, MdTag::Item, c, item_options(o, marks, acc.len()), h, pad, empty_text(), Seq::empty());
        if i < r.2 <= evs.len() { items_run(evs, r.2, r.1, o, h, pad, marks, acc.push(r.0)) } else { (acc.push(r.0), r.1, r.2) }
    } else if evs[i].0 == MdKind::End && evs[i].1 == MdTag::List {
        (acc, c, i + 1)
    } else {
        items_run(evs, i + 1, c, o, h, pad, marks, acc)
    }
}

/// The blocks of a document read from event `i` to the last, rendered.
pub open spec fn blocks_run(evs: Seq<MdEventView>, i: int, c: MdCtx, o: OptionsModel, h: bool, pad: PadOpt, acc: Seq<Seq<SegView>>) -> Seq<Seq<SegView>>
    decreases evs.len() - i,
{
    if i < 0 || i >= evs.len() {
        acc
    } else {
        let b = block_at(evs, i, c, o, h, pad);
        let acc2 = match b.0 { Some(x) => acc.push(x), None => acc };
        if i < b.2 <= evs.len() { blocks_run(evs, b.2, b.1, o, h, pad, acc2) } else { acc2 }
    }
}


/// Render a paragraph (see `paragraph_segs`).
fn paragraph_exec(console: &Console, t: &Text, options: &ConsoleOptions) -> (r: Vec<Segment>)
    ensures
        segs_view(r@) == paragraph_segs(t@, options@),
{
    let mut r = t.render(console, options);
    let ghost before = segs_view(r@);
    r.push(Segment::line());
    assert(segs_view(r@) =~= before.push(nl()));
    r
}

/// The style of a heading of the given level.
fn heading_style_exec(n: Option<u64>) -> (r: Style)
    ensures
        r == heading_style_of(n),
{
    match n {
        Some(1) => heading1(),
        Some(2) => heading2(),
        Some(3) => heading3(),
        Some(4) => heading4(),
        Some(5) => heading5(),
        _ => heading6(),
    }
}

/// Render text centred (see `center_segs`).
fn center_exec(console: &Console, t: &Text, options: &ConsoleOptions) -> (r: Vec<Segment>)
    ensures
        segs_view(r@) == center_segs(t@, options@),
{
    let aw = options.max_width;
    let m = t.measure_plain();
    let cw = if m.maximum < aw { m.maximum } else { aw };
    let mut ro = options.update_width(cw);
    ro.height = None;
    let segs = t.render(console, &ro);
    let lines = Segment::split_and_crop_lines(segs, cw, None, true, false);
    let shape = Segment::get_shape(&lines);
    let shaped = Segment::set_shape(&lines, shape.0, shape.1, None);
    align_lines(&shaped, aw, shape.0, shape.1, AlignMethod::Center, true, Style::new(), None, options.height)
}

/// Render a heading (see `heading_segs`).
fn heading_exec(console: &Console, n: Option<u64>, t: Text, options: &ConsoleOptions) -> (r: Vec<Segment>)
    ensures
        segs_view(r@) == heading_segs(n, t@, options@),
{
    let mut t2 = t;
    let len = t2.len();
    t2.stylize(0, len, heading_style_exec(n));
    proof {
        if 0 < t@.plain.len() {
            assert(t2@ == stylize_all(t@, heading_style_of(n)));
        }
    }
    if n == Some(1u64) {
        center_exec(console, &t2, options)
    } else {
        let mut r = t2.render(console, options);
        let ghost before = segs_view(r@);
        r.push(Segment::line());
        assert(segs_view(r@) =~= before.push(nl()));
        r
    }
}

/// Render a code block (see `code_segs`).
fn code_exec(console: &Console, code: &String, pad: PadOpt, options: &ConsoleOptions) -> (r: Vec<Segment>)
    ensures
        segs_view(r@) == code_segs(code@, pad, options@),
{
    let t = Text::plain(code.as_str());
    proof {
        assert(t@.plain =~= plain_text(code@).plain);
        assert(t@.spans =~= plain_text(code@).spans);
        assert(t@ == plain_text(code@));
    }
    let mut r = match pad {
        None => t.render(console, options),
        Some(d) => {
            let m = t.measure_plain().maximum;
            let s = m.saturating_add(d.3).saturating_add(d.1);
            let w = if s <= options.max_width { s } else { options.max_width };
            let sd = padded_sides(d.3, d.1, w);
            let ro = options.update_width(sd.2);
            let segs = t.render(console, &ro);
            let lines = Segment::split_and_crop_lines(segs, sd.2, None, true, false);
            proof {
                assert(crate::padding::content_style(null_style()) is None);
            }
            frame_lines(&lines, w, sd.0, sd.1, d.0, d.2, Style::new())
        },
    };
    let ghost before = segs_view(r@);
    r.push(Segment::line());
    assert(segs_view(r@) =~= before.push(nl()));
    r
}


/// Push one quoted line (see `quote_line`).
fn push_quote_line(out: &mut Vec<Segment>, line: &Vec<Segment>)
    ensures
        segs_view(final(out)@) == segs_view(old(out)@) + quote_line(segs_view(line@)),
{
    let ghost o0 = segs_view(out@);
    let mut border = String::new();
    border.push('\u{258C}');
    border.push(' ');
    assert(border@ =~= seq!['\u{258C}', ' ']);
    out.push(Segment::from_string(border, Some(block_quote_border())));
    let ghost o1 = segs_view(out@);
    assert(o1 =~= o0 + seq![(seq!['\u{258C}', ' '], Some(block_quote_border_style()), None::<ControlType>)]);
    let ghost lv = segs_view(line@);
    let mut m: usize = 0;
    while m < line.len()
        invariant
            m <= line.len(),
            lv == segs_view(line@),
            segs_view(out@) == o1 + lv.take(m as int).map_values(|s: SegView| quote_seg(s)),
        decreases line.len() - m,
    {
        let seg = &line[m];
        let st = match seg.style {
            Some(x) => x.combine(&block_quote()),
            None => block_quote(),
        };
        let ghost prev = segs_view(out@);
        out.push(Segment::from_string(seg.text.clone(), Some(st)));
        assert(lv[m as int] == seg_view(line@[m as int]));
        assert(segs_view(out@) =~= prev.push(quote_seg(lv[m as int])));
        assert(segs_view(out@) =~= o1 + lv.take(m as int).map_values(|s: SegView| quote_seg(s)).push(quote_seg(lv[m as int])));
        assert(lv.take(m as int + 1) =~= lv.take(m as int).push(lv[m as int]));
        assert(lv.take(m as int + 1).map_values(|s: SegView| quote_seg(s)) =~= lv.take(m as int).map_values(|s: SegView| quote_seg(s)).push(quote_seg(lv[m as int])));
        m = m + 1;
    }
    assert(lv.take(m as int) =~= lv);
    let ghost prev = segs_view(out@);
    out.push(Segment::line());
    assert(segs_view(out@) =~= prev.push(nl()));
    assert(segs_view(out@) =~= o0 + quote_line(lv));
}

/// Render a block quote of rendered blocks (see `quote_segs`).
fn quote_exec(blocks: &Vec<Vec<Segment>>) -> (r: Vec<Segment>)
    ensures
        segs_view(r@) == quote_segs(lines_view(blocks@)),
{
    let ghost bv = lines_view(blocks@);
    let mut out: Vec<Segment> = Vec::new();
    let mut k: usize = 0;
    while k < blocks.len()
        invariant
            k <= blocks.len(),
            bv == lines_view(blocks@),
            segs_view(out@) == quote_segs(bv.take(k as int)),
        decreases blocks.len() - k,
    {
        let lines = Segment::split_lines(copy_segs(&blocks[k]));
        let ghost lsv = lines_view(lines@);
        let ghost base = segs_view(out@);
        let mut j: usize = 0;
        while j < lines.len()
            invariant
                j <= lines.len(),
                lsv == lines_view(lines@),
                segs_view(out@) == base + quote_lines(lsv.take(j as int)),
            decreases lines.len() - j,
        {
            push_quote_line(&mut out, &lines[j]);
            assert(lsv.take(j as int + 1).drop_last() =~= lsv.take(j as int));
            j = j + 1;
        }
        assert(lsv.take(j as int) =~= lsv);
        assert(bv.take(k as int + 1).drop_last() =~= bv.take(k as int));
        k = k + 1;
    }
    assert(bv.take(k as int) =~= bv);
    out
}

/// The mark before item `k` (see `bullet`).
fn bullet_exec(ordered: bool, start: u64, k: usize, n: usize) -> (r: String)
    ensures
        r@ == bullet(ordered, start, k as nat, n as nat),
{
    let mut r = String::new();
    r.push(' ');
    if ordered {
        let s0 = start as usize;
        let num = s0.saturating_add(k);
        let mx = s0.saturating_add(n);
        let width = usize_to_string(mx).unicode_len();
        let d = usize_to_string(num);
        let dl = d.unicode_len();
        if width > dl {
            push_repeat(&mut r, ' ', width - dl);
        }
        push_str(&mut r, d.as_str());
        r.push(' ');
        proof {
            let rn = right_number(sat_usize(start as usize, k as nat), decimal_spec(sat_usize(start as usize, n as nat)).len());
            assert(r@ =~= seq![' '] + rn + seq![' ']);
        }
    } else {
        r.push('\u{2022}');
        r.push(' ');
        assert(r@ =~= seq![' ', '\u{2022}', ' ']);
    }
    r
}

/// The lines of an item's rendered blocks (see `item_lines`).
fn item_lines_exec(blocks: &Vec<Vec<Segment>>) -> (r: Vec<Vec<Segment>>)
    ensures
        lines_view(r@) == item_lines(lines_view(blocks@)),
{
    let ghost bv = lines_view(blocks@);
    let mut out: Vec<Vec<Segment>> = Vec::new();
    let mut k: usize = 0;
    while k < blocks.len()
        invariant
            k <= blocks.len(),
            bv == lines_view(blocks@),
            lines_view(out@) == item_lines(bv.take(k as int)),
        decreases blocks.len() - k,
    {
        let lines = Segment::split_lines(copy_segs(&blocks[k]));
        let ghost lsv = lines_view(lines@);
        let ghost base = lines_view(out@);
        let mut j: usize = 0;
        while j < lines.len()
            invariant
                j <= lines.len(),
                lsv == lines_view(lines@),
                lines_view(out@) == base + lsv.take(j as int),
            decreases lines.len() - j,
        {
            let ghost prev = lines_view(out@);
            let cp = copy_segs(&lines[j]);
            out.push(cp);
            assert(lsv[j as int] == segs_view(lines@[j as int]@));
            assert(lines_view(out@) =~= prev.push(segs_view(cp@)));
            assert(lines_view(out@) =~= base + lsv.take(j as int + 1));
            j = j + 1;
        }
        assert(lsv.take(j as int) =~= lsv);
        assert(bv.take(k as int + 1).drop_last() =~= bv.take(k as int));
        k = k + 1;
    }
    assert(bv.take(k as int) =~= bv);
    out
}

/// Push an item's lines with the mark (see `marked_lines`).
fn push_marked_lines(out: &mut Vec<Segment>, lines: &Vec<Vec<Segment>>, mark: &String, st: Style, w: usize)
    ensures
        segs_view(final(out)@) == segs_view(old(out)@) + marked_lines(lines_view(lines@), mark@, st, w as nat),
{
    let ghost lsv = lines_view(lines@);
    let ghost base = segs_view(out@);
    let mut j: usize = 0;
    while j < lines.len()
        invariant
            j <= lines.len(),
            lsv == lines_view(lines@),
            segs_view(out@) == base + marked_lines(lsv.take(j as int), mark@, st, w as nat),
        decreases lines.len() - j,
    {
        let ghost before = segs_view(out@);
        let ghost prefix: SegView = if j == 0 { (mark@, Some(st), None::<ControlType>) } else { (spaces(w as nat), None::<Style>, None::<ControlType>) };
        if j == 0 {
            out.push(Segment::styled(mark.as_str(), st));
        } else {
            out.push(Segment::from_string(repeat_char(' ', w), None));
        }
        let ghost b1 = segs_view(out@);
        assert(b1 =~= before.push(prefix));
        let line = &lines[j];
        let ghost lv = segs_view(line@);
        let mut m: usize = 0;
        while m < line.len()
            invariant
                m <= line.len(),
                lv == segs_view(line@),
                segs_view(out@) == b1 + lv.take(m as int),
            decreases line.len() - m,
        {
            let ghost prev = segs_view(out@);
            let c = line[m].copy();
            out.push(c);
            assert(lv[m as int] == seg_view(line@[m as int]));
            assert(segs_view(out@) =~= prev.push(seg_view(c)));
            assert(segs_view(out@) =~= b1 + lv.take(m as int + 1));
            m = m + 1;
        }
        assert(lv.take(m as int) =~= lv);
        let ghost prev = segs_view(out@);
        out.push(Segment::line());
        assert(segs_view(out@) =~= prev.push(nl()));
        assert(lsv[j as int] == lv);
        assert(lsv.take(j as int + 1).drop_last() =~= lsv.take(j as int));
        assert(segs_view(out@) =~= base + marked_lines(lsv.take(j as int + 1), mark@, st, w as nat));
        j = j + 1;
    }
    assert(lsv.take(j as int) =~= lsv);
}


/// The blocks of each item, as values.
pub open spec fn items_view(v: Seq<Vec<Vec<Segment>>>) -> Seq<Seq<Seq<SegView>>> {
    v.map_values(|b: Vec<Vec<Segment>>| lines_view(b@))
}

/// Render a list's items with their marks (see `list_items_segs`).
fn list_exec(items: &Vec<Vec<Vec<Segment>>>, ordered: bool, start: u64, n: usize) -> (r: Vec<Segment>)
    ensures
        segs_view(r@) == list_items_segs(items_view(items@), ordered, start, n as nat),
{
    let ghost iv = items_view(items@);
    let mut out: Vec<Segment> = Vec::new();
    let mut k: usize = 0;
    while k < items.len()
        invariant
            k <= items.len(),
            iv == items_view(items@),
            segs_view(out@) == list_items_segs(iv.take(k as int), ordered, start, n as nat),
        decreases items.len() - k,
    {
        let mark = bullet_exec(ordered, start, k, n);
        let w = cell_len(mark.as_str());
        let lines = item_lines_exec(&items[k]);
        let st = if ordered { item_number() } else { item_bullet() };
        push_marked_lines(&mut out, &lines, &mark, st, w);
        assert(iv[k as int] == lines_view(items@[k as int]@));
        assert(iv.take(k as int + 1).drop_last() =~= iv.take(k as int));
        k = k + 1;
    }
    assert(iv.take(k as int) =~= iv);
    out
}

/// Texts, as values.
pub open spec fn texts_view(v: Seq<Text>) -> Seq<TextModel> {
    v.map_values(|t: Text| t@)
}

/// Rows of texts, as values.
pub open spec fn rows_view(v: Seq<Vec<Text>>) -> Seq<Seq<TextModel>> {
    v.map_values(|r: Vec<Text>| texts_view(r@))
}

/// The header row, then the body rows.
pub open spec fn all_rows(heads: Seq<Text>, rows: Seq<Vec<Text>>) -> Seq<Seq<TextModel>> {
    seq![texts_view(heads)] + rows_view(rows)
}

/// The characters of cell `j` of row `k` (the header row first).
fn cell_exec(heads: &Vec<Text>, rows: &Vec<Vec<Text>>, k: usize, j: usize) -> (r: String)
    requires
        k <= rows.len(),
    ensures
        r@ == cell_chars(all_rows(heads@, rows@), k as int, j as int),
{
    let ghost all = all_rows(heads@, rows@);
    let row: &Vec<Text> = if k == 0 { heads } else { &rows[k - 1] };
    assert(all[k as int] == texts_view(row@));
    if j < row.len() {
        row[j].plain_text()
    } else {
        String::new()
    }
}

/// The width of column `j` (see `col_width`).
fn col_width_exec(heads: &Vec<Text>, rows: &Vec<Vec<Text>>, j: usize) -> (r: usize)
    ensures
        r as nat == col_width(all_rows(heads@, rows@), j as int, rows.len() + 1),
{
    let ghost all = all_rows(heads@, rows@);
    let mut best: usize = cell_len(cell_exec(heads, rows, 0, j).as_str());
    assert(best as nat == col_width(all, j as int, 1)) by {
        assert(col_width(all, j as int, 0) == 0);
    }
    let mut k: usize = 0;
    while k < rows.len()
        invariant
            k <= rows.len(),
            all == all_rows(heads@, rows@),
            best as nat == col_width(all, j as int, k + 1),
        decreases rows.len() - k,
    {
        let w = cell_len(cell_exec(heads, rows, k + 1, j).as_str());
        if w > best {
            best = w;
        }
        k = k + 1;
    }
    best
}

/// A cell set in its column (see `pad_cell`).
fn pad_cell_exec(s: &String, w: usize, a: char) -> (r: String)
    ensures
        r@ == pad_cell(s@, w as nat, a),
{
    let cw = cell_len(s.as_str());
    let extra: usize = if w > cw { w - cw } else { 0 };
    let mut r = String::new();
    if a == 'r' {
        push_repeat(&mut r, ' ', extra);
        push_str(&mut r, s.as_str());
    } else if a == 'c' {
        push_repeat(&mut r, ' ', extra / 2);
        push_str(&mut r, s.as_str());
        push_repeat(&mut r, ' ', extra - extra / 2);
    } else {
        push_str(&mut r, s.as_str());
        push_repeat(&mut r, ' ', extra);
    }
    assert(r@ =~= pad_cell(s@, w as nat, a));
    r
}

/// Row `k` set in its columns (see `row_line`).
fn row_line_exec(heads: &Vec<Text>, rows: &Vec<Vec<Text>>, k: usize, aligns: &Vec<char>, widths: &Vec<usize>) -> (r: String)
    requires
        k <= rows.len(),
        widths@.len() == heads@.len(),
        forall|j: int| 0 <= j < widths@.len() ==> widths@[j] as nat == #[trigger] col_width(all_rows(heads@, rows@), j, rows.len() + 1),
    ensures
        r@ == row_line(all_rows(heads@, rows@), k as int, aligns@, heads@.len() as int),
{
    let ghost all = all_rows(heads@, rows@);
    let mut r = String::new();
    let mut j: usize = 0;
    while j < widths.len()
        invariant
            j <= widths.len(),
            k <= rows.len(),
            widths@.len() == heads@.len(),
            all == all_rows(heads@, rows@),
            all.len() == rows.len() + 1,
            forall|j: int| 0 <= j < widths@.len() ==> widths@[j] as nat == #[trigger] col_width(all, j, rows.len() + 1),
            r@ == row_line(all, k as int, aligns@, j as int),
        decreases widths.len() - j,
    {
        let ghost prev = r@;
        if j > 0 {
            r.push(' ');
            r.push('\u{2502}');
            r.push(' ');
        }
        let a = if j < aligns.len() { aligns[j] } else { 'n' };
        let c = cell_exec(heads, rows, k, j);
        let p = pad_cell_exec(&c, widths[j], a);
        push_str(&mut r, p.as_str());
        assert(widths@[j as int] as nat == col_width(all, j as int, rows.len() + 1));
        assert(r@ =~= row_line(all, k as int, aligns@, j as int + 1));
        j = j + 1;
    }
    r
}

/// Render a table (see `table_segs`).
fn table_exec(heads: &Vec<Text>, rows: &Vec<Vec<Text>>, aligns: &String) -> (r: Vec<Segment>)
    ensures
        segs_view(r@) == table_segs(texts_view(heads@), rows_view(rows@), aligns@),
{
    let ghost all = all_rows(heads@, rows@);
    let av = str_chars(aligns.as_str());
    let mut widths: Vec<usize> = Vec::new();
    let mut j: usize = 0;
    while j < heads.len()
        invariant
            j <= heads.len(),
            widths@.len() == j,
            all == all_rows(heads@, rows@),
            forall|x: int| 0 <= x < widths@.len() ==> widths@[x] as nat == #[trigger] col_width(all, x, rows.len() + 1),
        decreases heads.len() - j,
    {
        let w = col_width_exec(heads, rows, j);
        widths.push(w);
        j = j + 1;
    }
    let ghost n = heads@.len() as int;
    assert(all.len() == rows.len() + 1);
    assert(all[0] == texts_view(heads@));
    let mut out: Vec<Segment> = Vec::new();
    let line0 = row_line_exec(heads, rows, 0, &av, &widths);
    out.push(Segment::from_string(line0, Some(strong())));
    out.push(Segment::line());
    assert(texts_view(heads@).len() == heads@.len());
    assert(table_lines(all, av@, n, 0) =~= Seq::<SegView>::empty());
    assert(segs_view(out@) =~= table_lines(all, av@, texts_view(heads@).len() as int, 1));
    let mut k: usize = 0;
    while k < rows.len()
        invariant
            k <= rows.len(),
            all == all_rows(heads@, rows@),
            all.len() == rows.len() + 1,
            av@ == aligns@,
            widths@.len() == heads@.len(),
            forall|x: int| 0 <= x < widths@.len() ==> widths@[x] as nat == #[trigger] col_width(all, x, rows.len() + 1),
            segs_view(out@) == table_lines(all, av@, texts_view(heads@).len() as int, k + 1),
        decreases rows.len() - k,
    {
        let line = row_line_exec(heads, rows, k + 1, &av, &widths);
        let ghost prev = segs_view(out@);
        out.push(Segment::from_string(line, None));
        out.push(Segment::line());
        assert(segs_view(out@) =~= table_lines(all, av@, texts_view(heads@).len() as int, k + 2));
        k = k + 1;
    }
    let ghost prev = segs_view(out@);
    out.push(Segment::line());
    assert(segs_view(out@) =~= prev.push(nl()));
    out
}

/// Render a horizontal rule (see `rule_segs`).
fn rule_exec(options: &ConsoleOptions) -> (r: Vec<Segment>)
    ensures
        segs_view(r@) == rule_segs(options@),
{
    let mut out: Vec<Segment> = Vec::new();
    out.push(Segment::from_string(repeat_char('\u{2500}', options.max_width), Some(horizontal_rule())));
    out.push(Segment::line());
    out.push(Segment::line());
    assert(segs_view(out@) =~= rule_segs(options@));
    out
}

/// The parser's state, as values.
pub struct MdContext {
    stack: Vec<Style>,
    link: Option<String>,
}

impl View for MdContext {
    type V = MdCtx;

    closed spec fn view(&self) -> MdCtx {
        MdCtx {
            stack: self.stack@,
            link: match self.link {
                Some(s) => Some(s@),
                None => None,
            },
        }
    }
}

impl MdContext {
    /// The starting state: one plain style, no link.
    pub fn new() -> (r: Self)
        ensures
            r@ == start_ctx(),
    {
        let mut stack: Vec<Style> = Vec::new();
        stack.push(Style::new());
        let r = MdContext { stack, link: None };
        assert(r@.stack =~= seq![null_style()]);
        r
    }

    /// The current inline style.
    pub fn current_style(&self) -> (r: Style)
        ensures
            r == cur_style(self@),
    {
        let n = self.stack.len();
        if n > 0 { self.stack[n - 1] } else { Style::new() }
    }

    /// Push a style, combined with the current one.
    pub fn push_style(&mut self, s: Style)
        ensures
            final(self)@ == push_st(old(self)@, s),
    {
        let cur = self.current_style();
        self.stack.push(cur.combine(&s));
    }

    /// Pop the top style, keeping the bottom one.
    pub fn pop_style(&mut self)
        ensures
            final(self)@ == pop_st(old(self)@),
    {
        if self.stack.len() > 1 {
            self.stack.pop();
            assert(self@.stack =~= old(self)@.stack.drop_last());
        }
    }
}

/// Append a string to text, unless the text would then not fit in memory.
fn append_capped(t: &mut Text, s: &str, st: Option<Style>)
    ensures
        final(t)@ == app(old(t)@, s@, st),
{
    let n = s.unicode_len();
    if n <= usize::MAX - t.len() {
        t.append(s, st);
    }
}

/// Apply one event to inline content (see `inline_step`).
fn inline_step_exec(e: &MdEvent, t: &mut Text, ctx: &mut MdContext, img: &mut Option<(String, String)>, h: bool)
    ensures
        ({
            let s = inline_step((e.kind, e.tag, e.text@, e.num), old(t)@, old(ctx)@, img_view(*old(img)), h);
            final(t)@ == s.0 && final(ctx)@ == s.1 && img_view(*final(img)) == s.2
        }),
{
    let open = img.is_some();
    if open {
        if e.kind == MdKind::Text {
            let p = img.take().unwrap();
            let mut alt = p.1;
            push_str(&mut alt, e.text.as_str());
            *img = Some((p.0, alt));
        } else if e.kind == MdKind::End && e.tag == MdTag::Image {
            let p = img.take().unwrap();
            push_image(t, &p.0, &p.1);
        }
    } else if e.kind == MdKind::Text {
        let st = ctx.current_style();
        append_capped(t, e.text.as_str(), Some(st));
    } else if e.kind == MdKind::Code {
        let st = ctx.current_style().combine(&code());
        append_capped(t, e.text.as_str(), Some(st));
    } else if e.kind == MdKind::SoftBreak {
        proof {
            reveal_strlit(" ");
            assert(" "@ =~= seq![' ']);
        }
        append_capped(t, " ", None);
    } else if e.kind == MdKind::HardBreak {
        proof {
            reveal_strlit("\n");
            assert("\n"@ =~= seq!['\n']);
        }
        append_capped(t, "\n", None);
    } else if e.kind == MdKind::Start {
        match e.tag {
            MdTag::Emphasis => ctx.push_style(emphasis()),
            MdTag::Strong => ctx.push_style(strong()),
            MdTag::Strikethrough => ctx.push_style(strikethrough()),
            MdTag::Link => {
                ctx.link = Some(e.text.clone());
                ctx.push_style(link());
            },
            MdTag::Image => {
                *img = Some((e.text.clone(), String::new()));
            },
            _ => {},
        }
    } else if e.kind == MdKind::End {
        match e.tag {
            MdTag::Emphasis => ctx.pop_style(),
            MdTag::Strong => ctx.pop_style(),
            MdTag::Strikethrough => ctx.pop_style(),
            MdTag::Link => {
                let url = ctx.link.take();
                ctx.pop_style();
                if !h {
                    if let Some(u) = url {
                        let st = link_url();
                        proof {
                            reveal_strlit(" (");
                            reveal_strlit(")");
                            assert(" ("@ =~= seq![' ', '(']);
                            assert(")"@ =~= seq![')']);
                        }
                        append_capped(t, " (", Some(st));
                        append_capped(t, u.as_str(), Some(st));
                        append_capped(t, ")", Some(st));
                    }
                }
            },
            _ => {},
        }
    }
}

/// An open image, as values.
pub open spec fn img_view(img: Option<(String, String)>) -> ImgState {
    match img {
        Some(p) => Some((p.0@, p.1@)),
        None => None,
    }
}

/// Write an image out (see `image_text`).
fn push_image(t: &mut Text, url: &String, alt: &String)
    ensures
        final(t)@ == image_text(old(t)@, url@, alt@),
{
    proof {
        reveal_strlit("\u{1F306} ");
        assert("\u{1F306} "@ =~= picture_mark());
    }
    append_capped(t, "\u{1F306} ", None);
    if alt.unicode_len() > 0 {
        append_capped(t, alt.as_str(), None);
    } else {
        append_capped(t, url.as_str(), Some(link_url()));
    }
}

/// Read inline content from event `pos` up to the end of the element `end` (see
/// `inline_run`).
pub fn parse_inline(evs: &Vec<MdEvent>, pos: usize, end: MdTag, ctx: &mut MdContext, h: bool) -> (r: (Text, usize))
    requires
        pos <= evs.len(),
    ensures
        ({
            let s = inline_run(events_view(evs@), pos as int, end, empty_text(), old(ctx)@, None, h);
            r.0@ == s.0 && final(ctx)@ == s.1 && r.1 == s.2
        }),
        pos <= r.1 <= evs.len(),
{
    let ghost ev = events_view(evs@);
    let ghost c0 = ctx@;
    let mut t = Text::new();
    let mut img: Option<(String, String)> = None;
    let mut i = pos;
    proof {
        assert(t@.plain =~= Seq::<char>::empty());
        assert(t@.spans =~= empty_text().spans);
        assert(t@ == empty_text());
    }
    while i < evs.len()
        invariant
            pos <= i <= evs.len(),
            ev == events_view(evs@),
            c0 == old(ctx)@,
            inline_run(ev, i as int, end, t@, ctx@, img_view(img), h) == inline_run(ev, pos as int, end, empty_text(), c0, None, h),
        decreases evs.len() - i,
    {
        let e = &evs[i];
        assert(ev[i as int] == (e.kind, e.tag, e.text@, e.num));
        if img.is_none() && e.kind == MdKind::End && e.tag == end {
            assert(ev.len() == evs@.len());
            assert(img_view(img) is None);
            assert(inline_run(ev, i as int, end, t@, ctx@, img_view(img), h) == (t@, ctx@, i as int + 1));
            return (t, i + 1);
        }
        inline_step_exec(e, &mut t, ctx, &mut img, h);
        i = i + 1;
    }
    if img.is_some() {
        let p = img.take().unwrap();
        push_image(&mut t, &p.0, &p.1);
    }
    (t, i)
}


impl MdContext {
    /// A copy of the state.
    pub fn copy(&self) -> (r: Self)
        ensures
            r@ == self@,
    {
        let mut stack: Vec<Style> = Vec::new();
        let mut k: usize = 0;
        while k < self.stack.len()
            invariant
                k <= self.stack.len(),
                stack@ == self.stack@.take(k as int),
            decreases self.stack.len() - k,
        {
            stack.push(self.stack[k]);
            assert(stack@ =~= self.stack@.take(k as int + 1));
            k = k + 1;
        }
        assert(stack@ =~= self.stack@);
        let link = match &self.link {
            Some(u) => Some(u.clone()),
            None => None,
        };
        MdContext { stack, link }
    }
}

/// Segments, when there are any, as values.
pub open spec fn opt_segs_view(o: Option<Vec<Segment>>) -> Option<Seq<SegView>> {
    match o {
        Some(v) => Some(segs_view(v@)),
        None => None,
    }
}

/// A list's marks, as values.
pub open spec fn marks_view(m: Option<(bool, u64, usize)>) -> Option<(bool, u64, nat)> {
    match m {
        Some(x) => Some((x.0, x.1, x.2 as nat)),
        None => None,
    }
}

/// Options `k` cells narrower (see `narrower`).
fn narrower_exec(options: &ConsoleOptions, k: usize) -> (r: ConsoleOptions)
    ensures
        r@ == narrower(options@, k as nat),
{
    let mut r = options.copy();
    r.max_width = options.max_width.saturating_sub(k);
    r
}

/// Gather a code block's text (see `code_run`).
fn gather_code(evs: &Vec<MdEvent>, pos: usize) -> (r: (String, usize))
    requires
        pos <= evs.len(),
    ensures
        ({
            let s = code_run(events_view(evs@), pos as int, Seq::empty());
            r.0@ == s.0 && r.1 == s.1
        }),
        pos <= r.1 <= evs.len(),
{
    let ghost ev = events_view(evs@);
    let mut code = String::new();
    let mut i = pos;
    while i < evs.len()
        invariant
            pos <= i <= evs.len(),
            ev == events_view(evs@),
            code_run(ev, i as int, code@) == code_run(ev, pos as int, Seq::empty()),
        decreases evs.len() - i,
    {
        let e = &evs[i];
        assert(ev[i as int] == (e.kind, e.tag, e.text@, e.num));
        if e.kind == MdKind::Text || e.kind == MdKind::Code {
            push_str(&mut code, e.text.as_str());
        } else if e.kind == MdKind::End && e.tag == MdTag::CodeBlock {
            return (code, i + 1);
        }
        i = i + 1;
    }
    (code, i)
}

/// Code without one final newline (see `drop_nl`).
fn drop_nl_exec(code: &String) -> (r: String)
    ensures
        r@ == drop_nl(code@),
{
    let cs = str_chars(code.as_str());
    let n = cs.len();
    if n > 0 && cs[n - 1] == '\n' {
        sub_string(cs.as_slice(), 0, n - 1)
    } else {
        code.clone()
    }
}

/// Whether an event is loose text (see `is_loose`).
fn is_loose_exec(e: &MdEvent) -> (r: bool)
    ensures
        r == is_loose((e.kind, e.tag, e.text@, e.num)),
{
    e.kind == MdKind::Text || e.kind == MdKind::Code || e.kind == MdKind::SoftBreak || e.kind == MdKind::HardBreak
        || ((e.kind == MdKind::Start || e.kind == MdKind::End)
            && (e.tag == MdTag::Emphasis || e.tag == MdTag::Strong || e.tag == MdTag::Strikethrough))
}

/// Apply a loose event (see `loose_step`).
fn loose_step_exec(e: &MdEvent, t: &mut Text, ctx: &mut MdContext)
    ensures
        ({
            let s = loose_step((e.kind, e.tag, e.text@, e.num), old(t)@, old(ctx)@);
            final(t)@ == s.0 && final(ctx)@ == s.1
        }),
{
    if e.kind == MdKind::Text {
        let st = ctx.current_style();
        append_capped(t, e.text.as_str(), Some(st));
    } else if e.kind == MdKind::Code {
        let st = ctx.current_style().combine(&code());
        append_capped(t, e.text.as_str(), Some(st));
    } else if e.kind == MdKind::SoftBreak {
        proof {
            reveal_strlit(" ");
            assert(" "@ =~= seq![' ']);
        }
        append_capped(t, " ", None);
    } else if e.kind == MdKind::HardBreak {
        proof {
            reveal_strlit("\n");
            assert("\n"@ =~= seq!['\n']);
        }
        append_capped(t, "\n", None);
    } else if e.kind == MdKind::Start {
        let st = if e.tag == MdTag::Emphasis { emphasis() } else if e.tag == MdTag::Strong { strong() } else { strikethrough() };
        ctx.push_style(st);
    } else {
        ctx.pop_style();
    }
}

/// Read the cells of a row (see `cells_run`), appending them to `cells`.
fn read_cells(evs: &Vec<MdEvent>, pos: usize, stop: MdTag, ctx: &mut MdContext, h: bool, cells: &mut Vec<Text>) -> (r: usize)
    requires
        pos <= evs.len(),
    ensures
        ({
            let s = cells_run(events_view(evs@), pos as int, stop, old(ctx)@, h, texts_view(old(cells)@));
            texts_view(final(cells)@) == s.0 && final(ctx)@ == s.1 && r == s.2
        }),
        pos <= r <= evs.len(),
{
    let ghost ev = events_view(evs@);
    let ghost c0 = ctx@;
    let ghost t0 = texts_view(cells@);
    let mut i = pos;
    while i < evs.len()
        invariant
            pos <= i <= evs.len(),
            ev == events_view(evs@),
            c0 == old(ctx)@,
            t0 == texts_view(old(cells)@),
            cells_run(ev, i as int, stop, ctx@, h, texts_view(cells@)) == cells_run(ev, pos as int, stop, c0, h, t0),
        decreases evs.len() - i,
    {
        let e = &evs[i];
        assert(ev[i as int] == (e.kind, e.tag, e.text@, e.num));
        if e.kind == MdKind::Start && e.tag == MdTag::TableCell {
            let (t, p) = parse_inline(evs, i + 1, MdTag::TableCell, ctx, h);
            let ghost before = texts_view(cells@);
            cells.push(t);
            assert(texts_view(cells@) =~= before.push(t@));
            i = p;
        } else if e.kind == MdKind::End && e.tag == stop {
            return i + 1;
        } else {
            i = i + 1;
        }
    }
    i
}

/// Read a table (see `table_run`).
fn read_table(evs: &Vec<MdEvent>, pos: usize, ctx: &mut MdContext, h: bool) -> (r: (Vec<Text>, Vec<Vec<Text>>, usize))
    requires
        pos <= evs.len(),
    ensures
        ({
            let s = table_run(events_view(evs@), pos as int, old(ctx)@, h, Seq::empty(), Seq::empty());
            texts_view(r.0@) == s.0 && rows_view(r.1@) == s.1 && final(ctx)@ == s.2 && r.2 == s.3
        }),
        pos <= r.2 <= evs.len(),
{
    let ghost ev = events_view(evs@);
    let ghost c0 = ctx@;
    let mut heads: Vec<Text> = Vec::new();
    let mut rows: Vec<Vec<Text>> = Vec::new();
    let mut i = pos;
    assert(texts_view(heads@) =~= Seq::<TextModel>::empty());
    assert(rows_view(rows@) =~= Seq::<Seq<TextModel>>::empty());
    while i < evs.len()
        invariant
            pos <= i <= evs.len(),
            ev == events_view(evs@),
            c0 == old(ctx)@,
            table_run(ev, i as int, ctx@, h, texts_view(heads@), rows_view(rows@)) == table_run(ev, pos as int, c0, h, Seq::empty(), Seq::empty()),
        decreases evs.len() - i,
    {
        let e = &evs[i];
        assert(ev[i as int] == (e.kind, e.tag, e.text@, e.num));
        if e.kind == MdKind::Start && e.tag == MdTag::TableHead {
            let p = read_cells(evs, i + 1, MdTag::TableHead, ctx, h, &mut heads);
            i = p;
        } else if e.kind == MdKind::Start && e.tag == MdTag::TableRow {
            let mut row: Vec<Text> = Vec::new();
            assert(texts_view(row@) =~= Seq::<TextModel>::empty());
            let p = read_cells(evs, i + 1, MdTag::TableRow, ctx, h, &mut row);
            if row.len() > 0 {
                let ghost before = rows_view(rows@);
                let ghost rv = texts_view(row@);
                rows.push(row);
                assert(rows_view(rows@) =~= before.push(rv));
            }
            i = p;
        } else if e.kind == MdKind::End && e.tag == MdTag::Table {
            return (heads, rows, i + 1);
        } else {
            i = i + 1;
        }
    }
    (heads, rows, i)
}

/// Read one block from event `i` and render it (see `block_at`).
fn render_block(console: &Console, evs: &Vec<MdEvent>, i: usize, ctx: &mut MdContext, options: &ConsoleOptions, h: bool, pad: PadOpt) -> (r: (Option<Vec<Segment>>, usize))
    requires
        i < evs.len(),
    ensures
        ({
            let s = block_at(events_view(evs@), i as int, old(ctx)@, options@, h, pad);
            opt_segs_view(r.0) == s.0 && final(ctx)@ == s.1 && r.1 == s.2
        }),
        i < r.1 <= evs.len(),
    decreases evs.len() - i, 0nat,
{
    let ghost ev = events_view(evs@);
    let e = &evs[i];
    assert(ev[i as int] == (e.kind, e.tag, e.text@, e.num));
    if e.kind == MdKind::Start {
        match e.tag {
            MdTag::Paragraph => {
                let (t, p) = parse_inline(evs, i + 1, MdTag::Paragraph, ctx, h);
                (Some(paragraph_exec(console, &t, options)), p)
            },
            MdTag::Heading => {
                let (t, p) = parse_inline(evs, i + 1, MdTag::Heading, ctx, h);
                (Some(heading_exec(console, e.num, t, options)), p)
            },
            MdTag::CodeBlock => {
                let (c, p) = gather_code(evs, i + 1);
                let c2 = drop_nl_exec(&c);
                (Some(code_exec(console, &c2, pad, options)), p)
            },
            MdTag::BlockQuote => {
                let qo = narrower_exec(options, 4);
                let (bs, p) = render_until(console, evs, i + 1, MdTag::BlockQuote, ctx, &qo, h, pad);
                (Some(quote_exec(&bs)), p)
            },
            MdTag::List => {
                let ordered = e.num.is_some();
                let start: u64 = match e.num { Some(x) => x, None => 1 };
                let mut dry = ctx.copy();
                let (d, _) = render_items(console, evs, i + 1, &mut dry, options, h, pad, None);
                let n = d.len();
                let (items, p) = render_items(console, evs, i + 1, ctx, options, h, pad, Some((ordered, start, n)));
                (Some(list_exec(&items, ordered, start, n)), p)
            },
            MdTag::Table => {
                let (heads, rows, p) = read_table(evs, i + 1, ctx, h);
                (Some(table_exec(&heads, &rows, &e.text)), p)
            },
            _ => (None, i + 1),
        }
    } else if e.kind == MdKind::Rule {
        (Some(rule_exec(options)), i + 1)
    } else {
        (None, i + 1)
    }
}

/// Read the blocks of a container from event `i` to its end and render them (see
/// `until_run`).
fn render_until(console: &Console, evs: &Vec<MdEvent>, i: usize, end: MdTag, ctx: &mut MdContext, options: &ConsoleOptions, h: bool, pad: PadOpt) -> (r: (Vec<Vec<Segment>>, usize))
    requires
        i <= evs.len(),
    ensures
        ({
            let s = until_run(events_view(evs@), i as int, end, old(ctx)@, options@, h, pad, empty_text(), Seq::empty());
            lines_view(r.0@) == s.0 && final(ctx)@ == s.1 && r.1 == s.2
        }),
        i <= r.1 <= evs.len(),
    decreases evs.len() - i, 1nat,
{
    let ghost ev = events_view(evs@);
    let ghost c0 = ctx@;
    let mut acc: Vec<Vec<Segment>> = Vec::new();
    let mut inl = Text::new();
    let mut pos = i;
    proof {
        assert(inl@.plain =~= Seq::<char>::empty());
        assert(inl@.spans =~= empty_text().spans);
        assert(lines_view(acc@) =~= Seq::<Seq<SegView>>::empty());
    }
    while pos < evs.len()
        invariant
            i <= pos <= evs.len(),
            ev == events_view(evs@),
            c0 == old(ctx)@,
            until_run(ev, pos as int, end, ctx@, options@, h, pad, inl@, lines_view(acc@)) == until_run(ev, i as int, end, c0, options@, h, pad, empty_text(), Seq::empty()),
        decreases evs.len() - pos,
    {
        let e = &evs[pos];
        assert(ev[pos as int] == (e.kind, e.tag, e.text@, e.num));
        if e.kind == MdKind::End && e.tag == end {
            if inl.len() > 0 {
                let ghost before = lines_view(acc@);
                let pseg = paragraph_exec(console, &inl, options);
                acc.push(pseg);
                assert(lines_view(acc@) =~= before.push(segs_view(pseg@)));
            }
            return (acc, pos + 1);
        } else if is_loose_exec(e) {
            loose_step_exec(e, &mut inl, ctx);
            pos = pos + 1;
        } else {
            if inl.len() > 0 {
                let ghost before = lines_view(acc@);
                let pseg = paragraph_exec(console, &inl, options);
                acc.push(pseg);
                assert(lines_view(acc@) =~= before.push(segs_view(pseg@)));
            }
            let (b, p) = render_block(console, evs, pos, ctx, options, h, pad);
            match b {
                Some(x) => {
                    let ghost before = lines_view(acc@);
                    let ghost xv = segs_view(x@);
                    acc.push(x);
                    assert(lines_view(acc@) =~= before.push(xv));
                },
                None => {},
            }
            inl = Text::new();
            proof {
                assert(inl@.plain =~= Seq::<char>::empty());
                assert(inl@.spans =~= empty_text().spans);
            }
            pos = p;
        }
    }
    if inl.len() > 0 {
        let ghost before = lines_view(acc@);
        let pseg = paragraph_exec(console, &inl, options);
        acc.push(pseg);
        assert(lines_view(acc@) =~= before.push(segs_view(pseg@)));
    }
    (acc, pos)
}

/// Read the items of a list from event `i` to its end and render their blocks (see
/// `items_run`).
fn render_items(console: &Console, evs: &Vec<MdEvent>, i: usize, ctx: &mut MdContext, options: &ConsoleOptions, h: bool, pad: PadOpt, marks: Option<(bool, u64, usize)>) -> (r: (Vec<Vec<Vec<Segment>>>, usize))
    requires
        i <= evs.len(),
    ensures
        ({
            let s = items_run(events_view(evs@), i as int, old(ctx)@, options@, h, pad, marks_view(marks), Seq::empty());
            items_view(r.0@) == s.0 && final(ctx)@ == s.1 && r.1 == s.2
        }),
        i <= r.1 <= evs.len(),
    decreases evs.len() - i, 1nat,
{
    let ghost ev = events_view(evs@);
    let ghost c0 = ctx@;
    let mut acc: Vec<Vec<Vec<Segment>>> = Vec::new();
    let mut pos = i;
    assert(items_view(acc@) =~= Seq::<Seq<Seq<SegView>>>::empty());
    while pos < evs.len()
        invariant
            i <= pos <= evs.len(),
            ev == events_view(evs@),
            c0 == old(ctx)@,
            items_run(ev, pos as int, ctx@, options@, h, pad, marks_view(marks), items_view(acc@)) == items_run(ev, i as int, c0, options@, h, pad, marks_view(marks), Seq::empty()),
        decreases evs.len() - pos,
    {
        let e = &evs[pos];
        assert(ev[pos as int] == (e.kind, e.tag, e.text@, e.num));
        if e.kind == MdKind::Start && e.tag == MdTag::Item {
            let io = match marks {
                Some(m) => {
                    let b = bullet_exec(m.0, m.1, acc.len(), m.2);
                    narrower_exec(options, cell_len(b.as_str()))
                },
                None => options.copy(),
            };
            assert(io@ == item_options(options@, marks_view(marks), items_view(acc@).len()));
            let (bs, p) = render_until(console, evs, pos + 1, MdTag::Item, ctx, &io, h, pad);
            let ghost before = items_view(acc@);
            let ghost bv = lines_view(bs@);
            acc.push(bs);
            assert(items_view(acc@) =~= before.push(bv));
            pos = p;
        } else if e.kind == MdKind::End && e.tag == MdTag::List {
            return (acc, pos + 1);
        } else {
            pos = pos + 1;
        }
    }
    (acc, pos)
}

/// Read every block of a document and render each (see `blocks_run`).
pub fn render_blocks(console: &Console, evs: &Vec<MdEvent>, ctx: &mut MdContext, options: &ConsoleOptions, h: bool, pad: PadOpt) -> (r: Vec<Vec<Segment>>)
    ensures
        lines_view(r@) == blocks_run(events_view(evs@), 0, old(ctx)@, options@, h, pad, Seq::empty()),
{
    let ghost ev = events_view(evs@);
    let ghost c0 = ctx@;
    let mut acc: Vec<Vec<Segment>> = Vec::new();
    let mut pos: usize = 0;
    assert(lines_view(acc@) =~= Seq::<Seq<SegView>>::empty());
    while pos < evs.len()
        invariant
            pos <= evs.len(),
            ev == events_view(evs@),
            c0 == old(ctx)@,
            blocks_run(ev, pos as int, ctx@, options@, h, pad, lines_view(acc@)) == blocks_run(ev, 0, c0, options@, h, pad, Seq::empty()),
        decreases evs.len() - pos,
    {
        let (b, p) = render_block(console, evs, pos, ctx, options, h, pad);
        match b {
            Some(x) => {
                let ghost before = lines_view(acc@);
                let ghost xv = segs_view(x@);
                acc.push(x);
                assert(lines_view(acc@) =~= before.push(xv));
            },
            None => {},
        }
        pos = p;
    }
    acc
}


/// Inline markup styles what it holds: after the start of strong text, the current
/// style is the one before it made bold (nothing else changes); after the start of
/// emphasis, made italic; after the start of struck-through text, struck through. The
/// matching end gives the style before back. Text read in between is appended in that
/// style.
pub proof fn law_inline_markup_styles(t: TextModel, c: MdCtx, x: Seq<char>, n: Option<u64>, h: bool, y: Seq<char>)
    ensures
        ({
            let s = inline_step((MdKind::Start, MdTag::Strong, x, n), t, c, None, h);
            &&& cur_style(s.1) == (Style { bold: Some(true), ..cur_style(c) })
            &&& inline_step((MdKind::Text, MdTag::Strong, y, n), s.0, s.1, None, h).0
                == app(t, y, Some((Style { bold: Some(true), ..cur_style(c) })))
            &&& c.stack.len() >= 1 ==> cur_style(inline_step((MdKind::End, MdTag::Strong, x, n), s.0, s.1, None, h).1) == cur_style(c)
        }),
        ({
            let s = inline_step((MdKind::Start, MdTag::Emphasis, x, n), t, c, None, h);
            &&& cur_style(s.1) == (Style { italic: Some(true), ..cur_style(c) })
            &&& inline_step((MdKind::Text, MdTag::Emphasis, y, n), s.0, s.1, None, h).0
                == app(t, y, Some((Style { italic: Some(true), ..cur_style(c) })))
            &&& c.stack.len() >= 1 ==> cur_style(inline_step((MdKind::End, MdTag::Emphasis, x, n), s.0, s.1, None, h).1) == cur_style(c)
        }),
        ({
            let s = inline_step((MdKind::Start, MdTag::Strikethrough, x, n), t, c, None, h);
            &&& cur_style(s.1) == (Style { strike: Some(true), dim: Some(true), ..cur_style(c) })
            &&& c.stack.len() >= 1 ==> cur_style(inline_step((MdKind::End, MdTag::Strikethrough, x, n), s.0, s.1, None, h).1) == cur_style(c)
        }),
{
    let cs = cur_style(c);
    if c.stack.len() == 0 {
        assert(c.stack.push(combine_spec(cs, strong_style())).drop_last() =~= c.stack);
    }
    assert(c.stack.push(combine_spec(cs, strong_style())).drop_last() =~= c.stack);
    assert(c.stack.push(combine_spec(cs, emphasis_style())).drop_last() =~= c.stack);
    assert(c.stack.push(combine_spec(cs, strikethrough_style())).drop_last() =~= c.stack);
}

/// Inline code is written in bold cyan on black over the current style, and link text
/// in bright blue (standard color 12) until the link ends; plain text is written in the
/// current style and a soft break as a space.
pub proof fn law_inline_code_and_links(t: TextModel, c: MdCtx, x: Seq<char>, n: Option<u64>, h: bool, y: Seq<char>)
    ensures
        inline_step((MdKind::Code, MdTag::Paragraph, y, n), t, c, None, h).0 == app(t, y, Some((Style {
            bold: Some(true),
            color: Some(crate::color::SimpleColor::Standard(6)),
            bgcolor: Some(crate::color::SimpleColor::Standard(0)),
            ..cur_style(c)
        }))),
        cur_style(inline_step((MdKind::Start, MdTag::Link, x, n), t, c, None, h).1)
            == (Style { color: Some(crate::color::SimpleColor::Standard(12)), ..cur_style(c) }),
        inline_step((MdKind::Text, MdTag::Paragraph, y, n), t, c, None, h).0 == app(t, y, Some(cur_style(c))),
        inline_step((MdKind::SoftBreak, MdTag::Paragraph, y, n), t, c, None, h).0 == app(t, seq![' '], None),
{
}
} // verus!
