//! Segments: pieces of styled text (or terminal control codes) produced by rendering.
use vstd::prelude::*;
use crate::style::{Style, combine_spec};
use crate::cells::{cw, chars_width, char_width};
use crate::strs::{owned, push_repeat, repeat_spec, str_chars, string_from_chars, sub_string, split_spec};

verus! {

broadcast use vstd::string::group_string_axioms;

/// A terminal control operation carried by a control segment.
#[derive(Debug, Clone, Copy, PartialEq, Eq, Hash, Structural)]
pub enum ControlType {
    /// Ring the bell.
    Bell,
    /// Move the cursor to the start of the line.
    CarriageReturn,
    /// Move the cursor to the top left corner.
    Home,
    /// Clear the screen.
    Clear,
    /// Show the cursor.
    ShowCursor,
    /// Hide the cursor.
    HideCursor,
    /// Switch to the alternate screen buffer.
    EnableAltScreen,
    /// Switch back from the alternate screen buffer.
    DisableAltScreen,
    /// Move the cursor up.
    CursorUp(u16),
    /// Move the cursor down.
    CursorDown(u16),
    /// Move the cursor right.
    CursorForward(u16),
    /// Move the cursor left.
    CursorBackward(u16),
    /// Move the cursor to a position.
    MoveTo { x: u16, y: u16 },
    /// Erase in the line (0: to the end, 1: to the start, 2: whole line).
    EraseInLine(u8),
    /// Set the window title.
    SetTitle,
}

/// A piece of text with an optional style, or a control code.
#[derive(Debug, Clone, PartialEq, Eq)]
pub struct Segment {
    /// The text of the segment.
    pub text: String,
    /// The style of the text.
    pub style: Option<Style>,
    /// A control code (the text is empty for control segments).
    pub control: Option<ControlType>,
    /// The target of a hyperlink over the text, if any.
    pub link: Option<String>,
}

/// The hyperlink target of a segment, if any.
pub open spec fn link_of(s: Segment) -> Option<Seq<char>> {
    match s.link {
        Some(u) => Some(u@),
        None => None,
    }
}

/// The hyperlink targets of segments.
pub open spec fn links_view(v: Seq<Segment>) -> Seq<Option<Seq<char>>> {
    v.map_values(|s: Segment| link_of(s))
}

/// A copy of a hyperlink target.
pub fn link_copy(l: &Option<String>) -> (r: Option<String>)
    ensures
        match r { Some(u) => Some(u@), None => None::<Seq<char>> } == match *l { Some(u) => Some(u@), None => None::<Seq<char>> },
{
    match l {
        Some(u) => Some(u.clone()),
        None => None,
    }
}

/// A segment as a value: text, style and control.
pub type SegView = (Seq<char>, Option<Style>, Option<ControlType>);

/// The value of a segment.
pub open spec fn seg_view(s: Segment) -> SegView {
    (s.text@, s.style, s.control)
}

/// The values of a sequence of segments.
pub open spec fn segs_view(v: Seq<Segment>) -> Seq<SegView> {
    v.map(|_i: int, s: Segment| seg_view(s))
}

/// The values of a sequence of lines of segments.
pub open spec fn lines_view(v: Seq<Vec<Segment>>) -> Seq<Seq<SegView>> {
    v.map(|_i: int, l: Vec<Segment>| segs_view(l@))
}

/// A sequence of segments.
pub type Segments = Vec<Segment>;

/// Cells taken by a line of segments (control segments take none).
pub open spec fn line_width(line: Seq<SegView>) -> nat
    decreases line.len(),
{
    if line.len() == 0 {
        0
    } else {
        line_width(line.drop_last()) + (if line.last().2 is Some { 0 } else { chars_width(line.last().0) })
    }
}

/// The text of a sequence of segments.
pub open spec fn segs_text(v: Seq<SegView>) -> Seq<char>
    decreases v.len(),
{
    if v.len() == 0 {
        Seq::empty()
    } else {
        segs_text(v.drop_last()) + v.last().0
    }
}

/// Width of the widest line and number of lines.
pub open spec fn shape_spec(lines: Seq<Seq<SegView>>) -> (nat, nat) {
    (max_line_width(lines), lines.len())
}

/// Width of the widest line.
pub open spec fn max_line_width(lines: Seq<Seq<SegView>>) -> nat
    decreases lines.len(),
{
    if lines.len() == 0 {
        0
    } else {
        let w = line_width(lines.last());
        let m = max_line_width(lines.drop_last());
        if w > m { w } else { m }
    }
}

/// The lines that splitting segments at newlines gives, continuing from the finished
/// `lines` and the line `cur` in progress. Empty pieces of text are dropped.
pub open spec fn split_lines_from(segs: Seq<SegView>, lines: Seq<Seq<SegView>>, cur: Seq<SegView>) -> Seq<Seq<SegView>>
    decreases segs.len(), 1int, 0int,
{
    if segs.len() == 0 {
        if cur.len() > 0 { lines.push(cur) } else { lines }
    } else {
        let s = segs[0];
        if s.2 is Some {
            split_lines_from(segs.drop_first(), lines, cur.push(s))
        } else {
            let parts = split_spec(s.0, '\n');
            parts_into_lines(segs.drop_first(), s.1, parts, 0, lines, cur)
        }
    }
}

/// Adds the pieces `parts[k..]` of a segment's text (each piece after the first starts a
/// new line), then continues with the remaining segments.
pub open spec fn parts_into_lines(
    rest: Seq<SegView>,
    style: Option<Style>,
    parts: Seq<Seq<char>>,
    k: int,
    lines: Seq<Seq<SegView>>,
    cur: Seq<SegView>,
) -> Seq<Seq<SegView>>
    decreases rest.len() + 1, 0int, parts.len() - k,
{
    if k >= parts.len() || k < 0 {
        split_lines_from(rest, lines, cur)
    } else {
        let piece = parts[k];
        let cur1 = if piece.len() > 0 { cur.push((piece, style, None)) } else { cur };
        if k + 1 < parts.len() {
            parts_into_lines(rest, style, parts, k + 1, lines.push(cur1), Seq::empty())
        } else {
            parts_into_lines(rest, style, parts, k + 1, lines, cur1)
        }
    }
}

/// Split segments into lines at newlines.
pub open spec fn split_lines_spec(segs: Seq<SegView>) -> Seq<Seq<SegView>> {
    split_lines_from(segs, Seq::empty(), Seq::empty())
}

/// A line cut down to at most `width` cells (control segments kept).
pub open spec fn crop_line(line: Seq<SegView>, width: nat) -> Seq<SegView>
    decreases line.len(),
{
    if line.len() == 0 {
        Seq::empty()
    } else {
        let s = line[0];
        if s.2 is Some {
            seq![s] + crop_line(line.drop_first(), width)
        } else {
            let w = chars_width(s.0);
            if w <= width {
                seq![s] + crop_line(line.drop_first(), (width - w) as nat)
            } else {
                let t = crate::cells::truncate_cells(s.0, width);
                if t.len() > 0 { seq![(t, s.1, s.2)] } else { Seq::empty() }
            }
        }
    }
}

/// A line made exactly `width` cells wide: cropped, then padded with spaces in `style`
/// when `pad` is set.
pub open spec fn adjust_line_spec(line: Seq<SegView>, width: nat, style: Option<Style>, pad: bool) -> Seq<SegView> {
    let w = line_width(line);
    if w < width {
        if pad { line.push((repeat_spec(' ', (width - w) as nat), style, None)) } else { line }
    } else if w > width {
        crop_line(line, width)
    } else {
        line
    }
}

/// The style of a segment after applying `style` beneath it and `post` above it.
pub open spec fn styled_under(s: SegView, style: Option<Style>, post: Option<Style>) -> SegView {
    if s.2 is Some {
        s
    } else {
        let base = match (style, s.1) {
            (Some(a), Some(b)) => Some(combine_spec(a, b)),
            (Some(a), None) => Some(a),
            (None, b) => b,
        };
        let top = match (base, post) {
            (Some(a), Some(b)) => Some(combine_spec(a, b)),
            (None, Some(b)) => Some(b),
            (a, None) => a,
        };
        (s.0, top, s.2)
    }
}

impl Segment {
    /// A segment of unstyled text.
    pub fn new(text: &str) -> (r: Self)
        ensures
            seg_view(r) == (text@, None::<Style>, None::<ControlType>),
            link_of(r) is None,
    {
        Segment { text: owned(text), style: None, control: None, link: None }
    }

    /// A segment of styled text.
    pub fn styled(text: &str, style: Style) -> (r: Self)
        ensures
            seg_view(r) == (text@, Some(style), None::<ControlType>),
            link_of(r) is None,
    {
        Segment { text: owned(text), style: Some(style), control: None, link: None }
    }

    /// A segment holding a string.
    pub fn from_string(text: String, style: Option<Style>) -> (r: Self)
        ensures
            seg_view(r) == (text@, style, None::<ControlType>),
            link_of(r) is None,
    {
        Segment { text, style, control: None, link: None }
    }

    /// A new line.
    pub fn line() -> (r: Self)
        ensures
            seg_view(r) == (seq!['\n'], None::<Style>, None::<ControlType>),
            link_of(r) is None,
    {
        let mut t = String::new();
        t.push('\n');
        Segment { text: t, style: None, control: None, link: None }
    }

    /// A control segment.
    pub fn control(control: ControlType) -> (r: Self)
        ensures
            seg_view(r) == (Seq::<char>::empty(), None::<Style>, Some(control)),
            link_of(r) is None,
    {
        Segment { text: String::new(), style: None, control: Some(control), link: None }
    }

    /// Unstyled text with a hyperlink to a target.
    pub fn new_with_link(text: &str, url: &str) -> (r: Self)
        ensures
            seg_view(r) == (text@, None::<Style>, None::<ControlType>),
            link_of(r) == Some(url@),
    {
        Segment { text: owned(text), style: None, control: None, link: Some(owned(url)) }
    }

    /// A copy of this segment.
    pub fn copy(&self) -> (r: Self)
        ensures
            seg_view(r) == seg_view(*self),
            link_of(r) == link_of(*self),
    {
        Segment { text: self.text.clone(), style: self.style, control: self.control, link: link_copy(&self.link) }
    }

    /// Whether this is a control segment.
    pub fn is_control(&self) -> (r: bool)
        ensures
            r == (self.control is Some),
    {
        self.control.is_some()
    }

    /// Cells taken by the segment (control segments take none).
    pub fn cell_length(&self) -> (r: usize)
        requires
            chars_width(self.text@) <= usize::MAX,
        ensures
            r == (if self.control is Some { 0 } else { chars_width(self.text@) }),
    {
        if self.control.is_some() {
            0
        } else {
            text_width(self.text.as_str())
        }
    }

    /// Split segments into lines at newlines; empty pieces of text are dropped and a
    /// last line without a newline is kept.
    pub fn split_lines(segments: Vec<Segment>) -> (r: Vec<Vec<Segment>>)
        ensures
            lines_view(r@) == split_lines_spec(segs_view(segments@)),
    {
        let mut lines: Vec<Vec<Segment>> = Vec::new();
        let mut cur: Vec<Segment> = Vec::new();
        let ghost segs = segs_view(segments@);
        let mut i: usize = 0;
        assert(segs.skip(0) == segs);
        assert(lines_view(lines@) =~= Seq::<Seq<SegView>>::empty());
        assert(segs_view(cur@) =~= Seq::<SegView>::empty());
        while i < segments.len()
            invariant
                0 <= i <= segments.len(),
                segs == segs_view(segments@),
                split_lines_from(segs.skip(i as int), lines_view(lines@), segs_view(cur@)) == split_lines_spec(segs),
            decreases segments.len() - i,
        {
            let seg = &segments[i];
            assert(segs.skip(i as int)[0] == seg_view(*seg));
            assert(segs.skip(i as int).drop_first() == segs.skip(i + 1));
            if seg.control.is_some() {
                let ghost cb = segs_view(cur@);
                cur.push(seg.copy());
                assert(segs_view(cur@) =~= cb.push(seg_view(*seg)));
            } else {
                let chars = str_chars(seg.text.as_str());
                let parts = crate::strs::split_chars(chars.as_slice(), '\n');
                let ghost ps = split_spec(seg.text@, '\n');
                let mut k: usize = 0;
                while k < parts.len()
                    invariant
                        0 <= k <= parts.len(),
                        parts@.len() == ps.len(),
                        forall|q: int| 0 <= q < parts@.len() ==> #[trigger] parts@[q]@ == ps[q],
                        parts_into_lines(segs.skip(i + 1), seg.style, ps, k as int, lines_view(lines@), segs_view(cur@))
                            == split_lines_spec(segs),
                    decreases parts.len() - k,
                {
                    let ghost cb = segs_view(cur@);
                    let ghost lb = lines_view(lines@);
                    let piece = &parts[k];
                    if piece.len() > 0 {
                        let t = string_from_chars(piece.as_slice());
                        cur.push(Segment { text: t, style: seg.style, control: None, link: link_copy(&seg.link) });
                        assert(segs_view(cur@) =~= cb.push((ps[k as int], seg.style, None)));
                    }
                    if k + 1 < parts.len() {
                        let finished = cur;
                        let ghost fv = segs_view(finished@);
                        lines.push(finished);
                        cur = Vec::new();
                        assert(lines_view(lines@) =~= lb.push(fv));
                        assert(segs_view(cur@) =~= Seq::<SegView>::empty());
                    }
                    k = k + 1;
                }
            }
            i = i + 1;
        }
        assert(segs.skip(i as int) =~= Seq::<SegView>::empty());
        let ghost lb = lines_view(lines@);
        let ghost cv = segs_view(cur@);
        if cur.len() > 0 {
            lines.push(cur);
            assert(lines_view(lines@) =~= lb.push(cv));
        }
        lines
    }
}

/// Whether the last line of segments is still open: after the last newline of the
/// text there is a control segment or some other text.
pub open spec fn ends_open(segs: Seq<SegView>) -> bool
    decreases segs.len(),
{
    if segs.len() == 0 {
        false
    } else {
        let s = segs.last();
        if s.2 is Some {
            true
        } else if s.0.len() == 0 {
            ends_open(segs.drop_last())
        } else {
            s.0.last() != '\n'
        }
    }
}

/// What splitting into lines and making each line `width` cells wide gives; with
/// `new_lines`, every line that a newline ended gets a newline segment.
pub open spec fn split_and_crop_spec(segs: Seq<SegView>, width: nat, style: Option<Style>, pad: bool, new_lines: bool) -> Seq<Seq<SegView>> {
    let lines = split_lines_spec(segs);
    let open = ends_open(segs);
    Seq::new(lines.len(), |i: int| {
        let l = adjust_line_spec(lines[i], width, style, pad);
        if new_lines && !(open && i == lines.len() - 1) {
            l.push((seq!['\n'], None::<Style>, None::<ControlType>))
        } else {
            l
        }
    })
}

/// Lines made `width` cells wide and `height` lines high: extra lines dropped,
/// missing lines filled with spaces in `style`.
pub open spec fn set_shape_spec(lines: Seq<Seq<SegView>>, width: nat, height: nat, style: Option<Style>) -> Seq<Seq<SegView>> {
    Seq::new(height, |i: int|
        if i < lines.len() {
            adjust_line_spec(lines[i], width, style, true)
        } else {
            seq![(repeat_spec(' ', width), style, None::<ControlType>)]
        })
}

proof fn lemma_line_width_cons(s: SegView, rest: Seq<SegView>)
    ensures
        line_width(seq![s] + rest) == (if s.2 is Some { 0 } else { chars_width(s.0) }) + line_width(rest),
    decreases rest.len(),
{
    let t = seq![s] + rest;
    if rest.len() == 0 {
        assert(t =~= seq![s]);
        assert(t.drop_last() =~= Seq::<SegView>::empty());
        assert(t.last() == s);
        assert(line_width(Seq::<SegView>::empty()) == 0);
        assert(line_width(t) == line_width(t.drop_last()) + (if t.last().2 is Some { 0 } else { chars_width(t.last().0) }));
    } else {
        lemma_line_width_cons(s, rest.drop_last());
        assert(t.drop_last() =~= seq![s] + rest.drop_last());
        assert(t.last() == rest.last());
        assert(line_width(t) == line_width(t.drop_last()) + (if t.last().2 is Some { 0 } else { chars_width(t.last().0) }));
        assert(line_width(rest) == line_width(rest.drop_last()) + (if rest.last().2 is Some { 0 } else { chars_width(rest.last().0) }));
    }
}

proof fn lemma_truncate_width(s: Seq<char>, budget: nat)
    ensures
        chars_width(crate::cells::truncate_cells(s, budget)) <= budget,
    decreases s.len(),
{
    let t = crate::cells::truncate_cells(s, budget);
    if s.len() == 0 {
    } else if cw(s[0]) > budget {
        if budget > 0 {
            assert(seq![' '].drop_last() =~= Seq::<char>::empty());
            assert(seq![' '].last() == ' ');
            crate::cells::lemma_space_width();
            assert(t == seq![' ']);
            assert(chars_width(seq![' ']) == chars_width(Seq::<char>::empty()) + cw(' '));
        } else {
            assert(t.len() == 0);
        }
    } else {
        let rest = crate::cells::truncate_cells(s.drop_first(), (budget - cw(s[0])) as nat);
        lemma_truncate_width(s.drop_first(), (budget - cw(s[0])) as nat);
        lemma_chars_width_cons(s[0], rest);
        assert(t == seq![s[0]] + rest);
    }
}

/// Width of a character followed by more characters.
pub proof fn lemma_chars_width_cons(c: char, rest: Seq<char>)
    ensures
        chars_width(seq![c] + rest) == cw(c) + chars_width(rest),
    decreases rest.len(),
{
    let t = seq![c] + rest;
    if rest.len() == 0 {
        assert(t =~= seq![c]);
        assert(t.drop_last() =~= Seq::<char>::empty());
        assert(t.last() == c);
        assert(chars_width(Seq::<char>::empty()) == 0);
        assert(chars_width(t) == chars_width(t.drop_last()) + cw(t.last()));
    } else {
        lemma_chars_width_cons(c, rest.drop_last());
        assert(t.drop_last() =~= seq![c] + rest.drop_last());
        assert(t.last() == rest.last());
        assert(chars_width(t) == chars_width(t.drop_last()) + cw(t.last()));
        assert(chars_width(rest) == chars_width(rest.drop_last()) + cw(rest.last()));
    }
}

/// A cropped line is at most `width` cells wide.
pub proof fn lemma_crop_line_width(line: Seq<SegView>, width: nat)
    ensures
        line_width(crop_line(line, width)) <= width,
    decreases line.len(),
{
    if line.len() == 0 {
    } else {
        let s = line[0];
        if s.2 is Some {
            lemma_crop_line_width(line.drop_first(), width);
            lemma_line_width_cons(s, crop_line(line.drop_first(), width));
        } else {
            let w = chars_width(s.0);
            if w <= width {
                lemma_crop_line_width(line.drop_first(), (width - w) as nat);
                lemma_line_width_cons(s, crop_line(line.drop_first(), (width - w) as nat));
            } else {
                let t = crate::cells::truncate_cells(s.0, width);
                lemma_truncate_width(s.0, width);
                if t.len() > 0 {
                    lemma_line_width_cons((t, s.1, s.2), Seq::empty());
                }
            }
        }
    }
}

/// An adjusted line is at most `width` cells wide, and exactly `width` when padded.
pub proof fn lemma_adjust_width(line: Seq<SegView>, width: nat, style: Option<Style>, pad: bool)
    ensures
        line_width(adjust_line_spec(line, width, style, pad)) <= width,
        pad ==> line_width(adjust_line_spec(line, width, style, pad)) == width || line_width(line) > width,
{
    let w = line_width(line);
    if w < width {
        if pad {
            let sp = repeat_spec(' ', (width - w) as nat);
            let l2 = line.push((sp, style, None));
            assert(l2.drop_last() =~= line);
            crate::cells::lemma_spaces_width((width - w) as nat);
        }
    } else if w > width {
        lemma_crop_line_width(line, width);
    }
}

/// Width of a line of segments, held at `usize::MAX` when it would not fit.
pub fn line_width_sat(line: &Vec<Segment>) -> (r: usize)
    ensures
        r == crate::wrap::satw(line_width(segs_view(line@))),
{
    let mut total: usize = 0;
    let mut i: usize = 0;
    let ghost mut exact: nat = 0;
    while i < line.len()
        invariant
            i <= line.len(),
            exact == line_width(segs_view(line@.take(i as int))),
            total == crate::wrap::satw(exact),
        decreases line.len() - i,
    {
        let seg = &line[i];
        let w: usize = if seg.control.is_some() {
            0
        } else {
            let cs = str_chars(seg.text.as_str());
            crate::wrap::chars_width_sat(cs.as_slice())
        };
        proof {
            assert(segs_view(line@.take(i + 1)).drop_last() =~= segs_view(line@.take(i as int)));
            let sw: nat = if seg.control is Some { 0 } else { chars_width(seg.text@) };
            exact = exact + sw;
        }
        total = total.saturating_add(w);
        i = i + 1;
    }
    assert(line@.take(i as int) =~= line@);
    total
}

/// Cells taken by characters, `None` when the sum does not fit in `usize`.
pub fn chars_width_checked(chars: &[char]) -> (r: Option<usize>)
    ensures
        chars_width(chars@) <= usize::MAX ==> r == Some(chars_width(chars@) as usize),
        chars_width(chars@) > usize::MAX ==> r is None,
{
    let mut total: usize = 0;
    let mut k: usize = 0;
    while k < chars.len()
        invariant
            k <= chars.len(),
            total == chars_width(chars@.take(k as int)),
        decreases chars.len() - k,
    {
        let w = char_width(chars[k]);
        assert(chars@.take(k + 1).drop_last() =~= chars@.take(k as int));
        match total.checked_add(w) {
            Some(t) => {
                total = t;
            },
            None => {
                proof {
                    lemma_chars_width_prefix(chars@, k + 1);
                }
                return None;
            },
        }
        k = k + 1;
    }
    assert(chars@.take(k as int) =~= chars@);
    Some(total)
}

proof fn lemma_line_width_prefix(line: Seq<SegView>, i: int)
    requires
        0 <= i <= line.len(),
    ensures
        line_width(line.take(i)) <= line_width(line),
    decreases line.len() - i,
{
    if i < line.len() {
        lemma_line_width_prefix(line, i + 1);
        assert(line.take(i + 1).drop_last() =~= line.take(i));
    } else {
        assert(line.take(i) =~= line);
    }
}

/// Whether the width of a line does not fit in `usize`.
fn line_width_exceeds(line: &Vec<Segment>) -> (r: bool)
    ensures
        r == (line_width(segs_view(line@)) > usize::MAX),
{
    let mut total: usize = 0;
    let mut i: usize = 0;
    while i < line.len()
        invariant
            i <= line.len(),
            total == line_width(segs_view(line@).take(i as int)),
        decreases line.len() - i,
    {
        let seg = &line[i];
        assert(segs_view(line@).take(i + 1).drop_last() =~= segs_view(line@).take(i as int));
        assert(segs_view(line@).take(i + 1).last() == seg_view(*seg));
        let w: usize = if seg.control.is_some() {
            0
        } else {
            let cs = str_chars(seg.text.as_str());
            match chars_width_checked(cs.as_slice()) {
                Some(w) => w,
                None => {
                    proof {
                        lemma_line_width_prefix(segs_view(line@), i + 1);
                    }
                    return true;
                },
            }
        };
        match total.checked_add(w) {
            Some(t) => {
                total = t;
            },
            None => {
                proof {
                    lemma_line_width_prefix(segs_view(line@), i + 1);
                }
                return true;
            },
        }
        i = i + 1;
    }
    assert(segs_view(line@).take(i as int) =~= segs_view(line@));
    false
}

/// A line cut down to at most `width` cells.
pub fn crop_line_exec(line: &Vec<Segment>, width: usize) -> (r: Vec<Segment>)
    ensures
        segs_view(r@) == crop_line(segs_view(line@), width as nat),
{
    let ghost all = segs_view(line@);
    let mut out: Vec<Segment> = Vec::new();
    let mut budget: usize = width;
    let mut i: usize = 0;
    assert(all.skip(0) =~= all);
    while i < line.len()
        invariant
            i <= line.len(),
            all == segs_view(line@),
            segs_view(out@) + crop_line(all.skip(i as int), budget as nat) == crop_line(all, width as nat),
        decreases line.len() - i,
    {
        let seg = &line[i];
        let ghost rest = all.skip(i as int);
        let ghost before = segs_view(out@);
        assert(rest[0] == seg_view(*seg));
        assert(rest.drop_first() =~= all.skip(i + 1));
        if seg.control.is_some() {
            out.push(seg.copy());
            assert(segs_view(out@) + crop_line(all.skip(i + 1), budget as nat) =~= before + crop_line(rest, budget as nat));
        } else {
            let cs = str_chars(seg.text.as_str());
            let wo = chars_width_checked(cs.as_slice());
            let fits = match wo { Some(w) => w <= budget, None => false };
            if fits {
                let w = match wo { Some(w) => w, None => 0 };
                out.push(seg.copy());
                assert(segs_view(out@) + crop_line(all.skip(i + 1), (budget - w) as nat) =~= before + crop_line(rest, budget as nat));
                budget = budget - w;
            } else {
                let t = crate::cells::truncate_chars(cs.as_slice(), budget);
                if t.len() > 0 {
                    out.push(Segment { text: string_from_chars(t.as_slice()), style: seg.style, control: None, link: link_copy(&seg.link) });
                }
                assert(segs_view(out@) =~= before + crop_line(rest, budget as nat));
                assert(segs_view(out@) =~= crop_line(all, width as nat));
                return out;
            }
        }
        i = i + 1;
    }
    assert(all.skip(i as int) =~= Seq::<SegView>::empty());
    assert(segs_view(out@) =~= segs_view(out@) + Seq::<SegView>::empty());
    out
}

pub(crate) fn copy_segs(line: &Vec<Segment>) -> (r: Vec<Segment>)
    ensures
        segs_view(r@) == segs_view(line@),
{
    let mut out: Vec<Segment> = Vec::new();
    let mut i: usize = 0;
    while i < line.len()
        invariant
            i <= line.len(),
            segs_view(out@) =~= segs_view(line@.take(i as int)),
        decreases line.len() - i,
    {
        out.push(line[i].copy());
        assert(segs_view(line@.take(i + 1)) =~= segs_view(line@.take(i as int)).push(seg_view(line@[i as int])));
        i = i + 1;
    }
    assert(line@.take(i as int) =~= line@);
    out
}

impl Segment {
    /// A line made exactly `width` cells wide: cropped when wider, padded with spaces
    /// in `style` when narrower and `pad` is set.
    pub fn adjust_line_length(line: &Vec<Segment>, width: usize, style: Option<Style>, pad: bool) -> (r: Vec<Segment>)
        ensures
            segs_view(r@) == adjust_line_spec(segs_view(line@), width as nat, style, pad),
    {
        let w = line_width_sat(line);
        let over = line_width_exceeds(line);
        if !over && w < width {
            let mut out = copy_segs(line);
            if pad {
                let ghost b = segs_view(out@);
                let mut sp = String::new();
                push_repeat(&mut sp, ' ', width - w);
                out.push(Segment { text: sp, style, control: None, link: None });
                assert(segs_view(out@) =~= b.push((repeat_spec(' ', (width - w) as nat), style, None)));
            }
            out
        } else if over || w > width {
            crop_line_exec(line, width)
        } else {
            copy_segs(line)
        }
    }

    /// Segments with a style applied beneath each and `post` on top (control
    /// segments unchanged).
    pub fn apply_style_to_segments(segments: Vec<Segment>, style: Option<Style>, post: Option<Style>) -> (r: Vec<Segment>)
        ensures
            segs_view(r@) == segs_view(segments@).map_values(|s: SegView| styled_under(s, style, post)),
    {
        let mut out: Vec<Segment> = Vec::new();
        let mut i: usize = 0;
        while i < segments.len()
            invariant
                i <= segments.len(),
                segs_view(out@) =~= segs_view(segments@.take(i as int)).map_values(|s: SegView| styled_under(s, style, post)),
            decreases segments.len() - i,
        {
            let seg = &segments[i];
            let ghost sv = seg_view(*seg);
            let ns = if seg.control.is_some() {
                seg.copy()
            } else {
                let base = match (style, seg.style) {
                    (Some(a), Some(b)) => Some(a.combine(&b)),
                    (Some(a), None) => Some(a),
                    (None, b) => b,
                };
                let top = match (base, post) {
                    (Some(a), Some(b)) => Some(a.combine(&b)),
                    (None, Some(b)) => Some(b),
                    (a, None) => a,
                };
                Segment { text: seg.text.clone(), style: top, control: None, link: link_copy(&seg.link) }
            };
            assert(seg_view(ns) == styled_under(sv, style, post));
            let ghost ov = segs_view(out@);
            out.push(ns);
            assert(segs_view(out@) =~= ov.push(styled_under(sv, style, post)));
            assert(segs_view(segments@.take(i + 1)) =~= segs_view(segments@.take(i as int)).push(sv));
            i = i + 1;
        }
        assert(segments@.take(i as int) =~= segments@);
        out
    }

    /// Split segments into lines and make each `width` cells wide; with `new_lines`, a
    /// newline segment ends each line that a newline ended.
    pub fn split_and_crop_lines(segments: Vec<Segment>, width: usize, style: Option<Style>, pad: bool, new_lines: bool) -> (r: Vec<Vec<Segment>>)
        ensures
            lines_view(r@) == split_and_crop_spec(segs_view(segments@), width as nat, style, pad, new_lines),
    {
        let open = ends_open_exec(&segments);
        let lines = Segment::split_lines(segments);
        let ghost lv = lines_view(lines@);
        let mut out: Vec<Vec<Segment>> = Vec::new();
        let mut i: usize = 0;
        while i < lines.len()
            invariant
                i <= lines.len(),
                lv == lines_view(lines@),
                out@.len() == i,
                forall|j: int| 0 <= j < i ==> #[trigger] segs_view(out@[j]@) == ({
                    let l = adjust_line_spec(lv[j], width as nat, style, pad);
                    if new_lines && !(open && j == lv.len() - 1) {
                        l.push((seq!['\n'], None::<Style>, None::<ControlType>))
                    } else {
                        l
                    }
                }),
            decreases lines.len() - i,
        {
            let mut l = Segment::adjust_line_length(&lines[i], width, style, pad);
            if new_lines && !(open && i == lines.len() - 1) {
                let ghost b = segs_view(l@);
                l.push(Segment::line());
                assert(segs_view(l@) =~= b.push((seq!['\n'], None::<Style>, None::<ControlType>)));
            }
            out.push(l);
            i = i + 1;
        }
        assert(lines_view(out@) =~= split_and_crop_spec(segs_view(segments@), width as nat, style, pad, new_lines));
        out
    }

    /// The width of the widest line (held at `usize::MAX`) and the number of lines.
    pub fn get_shape(lines: &Vec<Vec<Segment>>) -> (r: (usize, usize))
        ensures
            r.0 == crate::wrap::satw(max_line_width(lines_view(lines@))),
            r.1 == lines@.len(),
    {
        let mut m: usize = 0;
        let mut i: usize = 0;
        while i < lines.len()
            invariant
                i <= lines.len(),
                m == crate::wrap::satw(max_line_width(lines_view(lines@.take(i as int)))),
            decreases lines.len() - i,
        {
            let w = line_width_sat(&lines[i]);
            assert(lines_view(lines@.take(i + 1)).drop_last() =~= lines_view(lines@.take(i as int)));
            if w > m {
                m = w;
            }
            i = i + 1;
        }
        assert(lines@.take(i as int) =~= lines@);
        (m, lines.len())
    }

    /// Lines made `width` cells wide and `height` lines high.
    pub fn set_shape(lines: &Vec<Vec<Segment>>, width: usize, height: usize, style: Option<Style>) -> (r: Vec<Vec<Segment>>)
        ensures
            lines_view(r@) == set_shape_spec(lines_view(lines@), width as nat, height as nat, style),
    {
        let mut out: Vec<Vec<Segment>> = Vec::new();
        let mut i: usize = 0;
        let ghost lv = lines_view(lines@);
        while i < height
            invariant
                i <= height,
                lv == lines_view(lines@),
                out@.len() == i,
                forall|j: int| 0 <= j < i ==> #[trigger] segs_view(out@[j]@) == (if j < lv.len() {
                    adjust_line_spec(lv[j], width as nat, style, true)
                } else {
                    seq![(repeat_spec(' ', width as nat), style, None::<ControlType>)]
                }),
            decreases height - i,
        {
            if i < lines.len() {
                let l = Segment::adjust_line_length(&lines[i], width, style, true);
                out.push(l);
            } else {
                let mut sp = String::new();
                push_repeat(&mut sp, ' ', width);
                let mut l: Vec<Segment> = Vec::new();
                l.push(Segment { text: sp, style, control: None, link: None });
                assert(segs_view(l@) =~= seq![(repeat_spec(' ', width as nat), style, None::<ControlType>)]);
                out.push(l);
            }
            i = i + 1;
        }
        assert(lines_view(out@) =~= set_shape_spec(lines_view(lines@), width as nat, height as nat, style));
        out
    }
}

fn ends_open_exec(segs: &Vec<Segment>) -> (r: bool)
    ensures
        r == ends_open(segs_view(segs@)),
{
    let mut i: usize = segs.len();
    assert(segs_view(segs@).take(i as int) =~= segs_view(segs@));
    while i > 0
        invariant
            i <= segs.len(),
            ends_open(segs_view(segs@)) == ends_open(segs_view(segs@).take(i as int)),
        decreases i,
    {
        let seg = &segs[i - 1];
        proof {
            let t = segs_view(segs@).take(i as int);
            assert(t.last() == seg_view(*seg));
            assert(t.drop_last() =~= segs_view(segs@).take(i - 1));
        }
        if seg.control.is_some() {
            return true;
        }
        let cs = str_chars(seg.text.as_str());
        if cs.len() > 0 {
            return cs[cs.len() - 1] != '\n';
        }
        i = i - 1;
    }
    false
}

/// Sum of the cell widths of the characters of a string.
pub fn text_width(s: &str) -> (r: usize)
    requires
        chars_width(s@) <= usize::MAX,
    ensures
        r == chars_width(s@),
{
    let chars = str_chars(s);
    chars_slice_width(chars.as_slice())
}

proof fn lemma_chars_width_prefix(s: Seq<char>, i: int)
    requires
        0 <= i <= s.len(),
    ensures
        chars_width(s.take(i)) <= chars_width(s),
    decreases s.len() - i,
{
    if i < s.len() {
        lemma_chars_width_prefix(s, i + 1);
        assert(s.take(i + 1).drop_last() == s.take(i));
    } else {
        assert(s.take(i) == s);
    }
}

/// Sum of the cell widths of characters.
pub fn chars_slice_width(chars: &[char]) -> (r: usize)
    requires
        chars_width(chars@) <= usize::MAX,
    ensures
        r == chars_width(chars@),
{
    let mut total: usize = 0;
    let mut i: usize = 0;
    while i < chars.len()
        invariant
            0 <= i <= chars.len(),
            chars_width(chars@) <= usize::MAX,
            total == chars_width(chars@.take(i as int)),
        decreases chars.len() - i,
    {
        proof {
            assert(chars@.take(i + 1).drop_last() == chars@.take(i as int));
            lemma_chars_width_prefix(chars@, i + 1);
        }
        total = total + char_width(chars[i]);
        i = i + 1;
    }
    assert(chars@.take(i as int) == chars@);
    total
}

} // verus!
