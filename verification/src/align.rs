//! Align: horizontal and vertical alignment of a renderable within a width and height.
use vstd::prelude::*;
use crate::Renderable;
use crate::console::{Console, ConsoleOptions, OptionsModel, apply_style_spec};
use crate::measure::Measurement;
use crate::segment::{Segment, SegView, ControlType, seg_view, segs_view, lines_view, max_line_width, Segments};
use crate::strs::{push_str, push_repeat, repeat_spec, to_lowercase, unicode_lowercase, str_eq};
use crate::style::{Style, null_style};

verus! {

broadcast use vstd::string::group_string_axioms;

/// Horizontal alignment.
#[derive(Debug, Clone, Copy, PartialEq, Eq, Hash, Structural)]
pub enum AlignMethod {
    /// Align to the left.
    Left,
    /// Center.
    Center,
    /// Align to the right.
    Right,
}

/// Vertical alignment method.
#[derive(Debug, Clone, Copy, PartialEq, Eq, Hash, Structural)]
pub enum VerticalAlignMethod {
    /// Align to the top (default).
    Top,
    /// Align to the middle.
    Middle,
    /// Align to the bottom.
    Bottom,
}

impl Default for VerticalAlignMethod {
    fn default() -> (r: Self)
        ensures
            r == VerticalAlignMethod::Top,
    {
        VerticalAlignMethod::Top
    }
}

/// The vertical alignment that a (lower case) name stands for.
pub open spec fn vertical_of(name: Seq<char>) -> Option<VerticalAlignMethod> {
    if name == "top"@ {
        Some(VerticalAlignMethod::Top)
    } else if name == "middle"@ {
        Some(VerticalAlignMethod::Middle)
    } else if name == "bottom"@ {
        Some(VerticalAlignMethod::Bottom)
    } else {
        None
    }
}

impl VerticalAlignMethod {
    /// Parse a vertical alignment method from its name, in any case.
    pub fn parse(s: &str) -> (r: Option<Self>)
        ensures
            r == vertical_of(unicode_lowercase(s@)),
    {
        let l = to_lowercase(s);
        let w = l.as_str();
        if str_eq(w, "top") {
            Some(VerticalAlignMethod::Top)
        } else if str_eq(w, "middle") {
            Some(VerticalAlignMethod::Middle)
        } else if str_eq(w, "bottom") {
            Some(VerticalAlignMethod::Bottom)
        } else {
            None
        }
    }
}

/// A renderable positioned within the available width (and optionally height) by
/// adding spaces around it.
pub struct Align {
    renderable: Box<dyn Renderable>,
    align: AlignMethod,
    vertical: Option<VerticalAlignMethod>,
    style: Style,
    pad: bool,
    width: Option<usize>,
    height: Option<usize>,
}

/// The settings of an alignment.
pub struct AlignModel {
    /// Horizontal alignment.
    pub align: AlignMethod,
    /// Vertical alignment.
    pub vertical: Option<VerticalAlignMethod>,
    /// Style of the added space.
    pub style: Style,
    /// Whether the right side is padded.
    pub pad: bool,
    /// Fixed width.
    pub width: Option<usize>,
    /// Fixed height.
    pub height: Option<usize>,
}

impl View for Align {
    type V = AlignModel;

    closed spec fn view(&self) -> AlignModel {
        AlignModel {
            align: self.align,
            vertical: self.vertical,
            style: self.style,
            pad: self.pad,
            width: self.width,
            height: self.height,
        }
    }
}

/// The name of a horizontal alignment.
pub open spec fn align_name(a: AlignMethod) -> Seq<char> {
    match a {
        AlignMethod::Left => "Left"@,
        AlignMethod::Center => "Center"@,
        AlignMethod::Right => "Right"@,
    }
}

/// The description of an optional vertical alignment.
pub open spec fn vertical_name(v: Option<VerticalAlignMethod>) -> Seq<char> {
    match v {
        None => "None"@,
        Some(VerticalAlignMethod::Top) => "Some(Top)"@,
        Some(VerticalAlignMethod::Middle) => "Some(Middle)"@,
        Some(VerticalAlignMethod::Bottom) => "Some(Bottom)"@,
    }
}

/// The width to align within: the fixed width, else the options' maximum width.
pub open spec fn available(w: Option<usize>, o: OptionsModel) -> nat {
    match w {
        Some(x) => x as nat,
        None => o.max_width as nat,
    }
}

/// The height to align within: the fixed height, else the options' height.
pub open spec fn vertical_height(h: Option<usize>, o: OptionsModel) -> Option<usize> {
    match h {
        Some(x) => Some(x),
        None => o.height,
    }
}

/// One line positioned in `aw` cells when the content is `rw` cells wide, ended by a
/// newline: left pads on the right (when padding), center splits the room (the right
/// part only when padding), right pads on the left.
pub open spec fn aligned_line(line: Seq<SegView>, aw: nat, rw: nat, a: AlignMethod, pad: bool, st: Style) -> Seq<SegView> {
    let nl = seq![(seq!['\n'], None::<Style>, None::<ControlType>)];
    let excess: nat = if aw > rw { (aw - rw) as nat } else { 0 };
    let sp = |n: nat| (repeat_spec(' ', n), Some(st), None::<ControlType>);
    if excess == 0 {
        line + nl
    } else {
        match a {
            AlignMethod::Left => line + (if pad { seq![sp(excess)] } else { Seq::empty() }) + nl,
            AlignMethod::Center => {
                let left = excess / 2;
                let right = (excess - left) as nat;
                (if left > 0 { seq![sp(left)] } else { Seq::empty() }) + line
                    + (if pad && right > 0 { seq![sp(right)] } else { Seq::empty() }) + nl
            },
            AlignMethod::Right => seq![sp(excess)] + line + nl,
        }
    }
}

/// All lines positioned.
pub open spec fn aligned_body(lines: Seq<Seq<SegView>>, aw: nat, rw: nat, a: AlignMethod, pad: bool, st: Style) -> Seq<SegView>
    decreases lines.len(),
{
    if lines.len() == 0 {
        Seq::empty()
    } else {
        aligned_body(lines.drop_last(), aw, rw, a, pad, st) + aligned_line(lines.last(), aw, rw, a, pad, st)
    }
}

/// A blank line of the available width (spaces in the style when padding).
pub open spec fn blank_line(aw: nat, pad: bool, st: Style) -> SegView {
    if pad && aw > 0 {
        (repeat_spec(' ', aw) + seq!['\n'], Some(st), None::<ControlType>)
    } else {
        (seq!['\n'], None::<Style>, None::<ControlType>)
    }
}

/// `n` copies of a segment.
pub open spec fn copies(n: nat, s: SegView) -> Seq<SegView> {
    Seq::new(n, |_i: int| s)
}

/// The output of an alignment of rendered lines (`rw` cells wide, `rh` high) in `aw`
/// cells: positioned lines, blank lines for vertical alignment within a height greater
/// than `rh`, all in the style when it sets anything.
pub open spec fn align_spec(
    lines: Seq<Seq<SegView>>,
    aw: nat,
    rw: nat,
    rh: nat,
    a: AlignMethod,
    pad: bool,
    st: Style,
    vertical: Option<VerticalAlignMethod>,
    vh: Option<usize>,
) -> Seq<SegView> {
    let body = aligned_body(lines, aw, rw, a, pad, st);
    let blank = blank_line(aw, pad, st);
    let out = match (vertical, vh) {
        (Some(v), Some(h)) => if h > rh {
            match v {
                VerticalAlignMethod::Top => body + copies((h - rh) as nat, blank),
                VerticalAlignMethod::Middle => {
                    let top = ((h - rh) / 2) as nat;
                    let bottom = (h - top - rh) as nat;
                    copies(top, blank) + body + copies(bottom, blank)
                },
                VerticalAlignMethod::Bottom => copies((h - rh) as nat, blank) + body,
            }
        } else {
            body
        },
        _ => body,
    };
    if st != null_style() { apply_style_spec(out, Some(st)) } else { out }
}

fn spaces_seg(n: usize, st: Style) -> (r: Segment)
    ensures
        seg_view(r) == (repeat_spec(' ', n as nat), Some(st), None::<ControlType>),
{
    let mut t = String::new();
    push_repeat(&mut t, ' ', n);
    Segment { text: t, style: Some(st), control: None, link: None }
}

pub(crate) fn push_seg(out: &mut Vec<Segment>, s: Segment)
    ensures
        segs_view(final(out)@) == segs_view(old(out)@).push(seg_view(s)),
{
    let ghost b = segs_view(out@);
    out.push(s);
    assert(segs_view(out@) =~= b.push(seg_view(s)));
}

pub(crate) fn push_all(out: &mut Vec<Segment>, line: &Vec<Segment>)
    ensures
        segs_view(final(out)@) == segs_view(old(out)@) + segs_view(line@),
{
    let mut k: usize = 0;
    let ghost b = segs_view(out@);
    while k < line.len()
        invariant
            k <= line.len(),
            segs_view(out@) =~= b + segs_view(line@.take(k as int)),
        decreases line.len() - k,
    {
        push_seg(out, line[k].copy());
        assert(segs_view(line@.take(k + 1)) =~= segs_view(line@.take(k as int)).push(seg_view(line@[k as int])));
        k = k + 1;
    }
    assert(line@.take(k as int) =~= line@);
}

fn push_blanks(out: &mut Vec<Segment>, n: usize, aw: usize, pad: bool, st: Style)
    ensures
        segs_view(final(out)@) == segs_view(old(out)@) + copies(n as nat, blank_line(aw as nat, pad, st)),
{
    let mut k: usize = 0;
    let ghost b = segs_view(out@);
    while k < n
        invariant
            k <= n,
            segs_view(out@) =~= b + copies(k as nat, blank_line(aw as nat, pad, st)),
        decreases n - k,
    {
        let seg = if pad && aw > 0 {
            let mut t = String::new();
            push_repeat(&mut t, ' ', aw);
            t.push('\n');
            assert(t@ =~= repeat_spec(' ', aw as nat) + seq!['\n']);
            Segment { text: t, style: Some(st), control: None, link: None }
        } else {
            Segment::line()
        };
        assert(seg_view(seg) == blank_line(aw as nat, pad, st));
        push_seg(out, seg);
        assert(copies((k + 1) as nat, blank_line(aw as nat, pad, st)) =~= copies(k as nat, blank_line(aw as nat, pad, st)).push(blank_line(aw as nat, pad, st)));
        k = k + 1;
    }
}

/// Position rendered lines (`rw` cells wide, `rh` high) in `aw` cells, with blank lines
/// for vertical alignment.
pub fn align_lines(
    lines: &Vec<Vec<Segment>>,
    aw: usize,
    rw: usize,
    rh: usize,
    a: AlignMethod,
    pad: bool,
    st: Style,
    vertical: Option<VerticalAlignMethod>,
    vh: Option<usize>,
) -> (r: Vec<Segment>)
    ensures
        segs_view(r@) == align_spec(lines_view(lines@), aw as nat, rw as nat, rh as nat, a, pad, st, vertical, vh),
{
    let mut out: Vec<Segment> = Vec::new();
    let blanks: (usize, usize) = match (vertical, vh) {
        (Some(v), Some(h)) => if h > rh {
            match v {
                VerticalAlignMethod::Top => (0, h - rh),
                VerticalAlignMethod::Middle => {
                    let top = (h - rh) / 2;
                    (top, h - top - rh)
                },
                VerticalAlignMethod::Bottom => (h - rh, 0),
            }
        } else {
            (0, 0)
        },
        _ => (0, 0),
    };
    push_blanks(&mut out, blanks.0, aw, pad, st);
    let ghost before_body = segs_view(out@);
    let excess: usize = if aw > rw { aw - rw } else { 0 };
    let ghost lv = lines_view(lines@);
    let mut i: usize = 0;
    while i < lines.len()
        invariant
            i <= lines.len(),
            lv == lines_view(lines@),
            excess == (if aw > rw { (aw - rw) as nat } else { 0 }),
            segs_view(out@) =~= before_body + aligned_body(lv.take(i as int), aw as nat, rw as nat, a, pad, st),
        decreases lines.len() - i,
    {
        let ghost b = segs_view(out@);
        let line = &lines[i];
        if excess == 0 {
            push_all(&mut out, line);
        } else {
            match a {
                AlignMethod::Left => {
                    push_all(&mut out, line);
                    if pad {
                        push_seg(&mut out, spaces_seg(excess, st));
                    }
                },
                AlignMethod::Center => {
                    let left = excess / 2;
                    let right = excess - left;
                    if left > 0 {
                        push_seg(&mut out, spaces_seg(left, st));
                    }
                    push_all(&mut out, line);
                    if pad && right > 0 {
                        push_seg(&mut out, spaces_seg(right, st));
                    }
                },
                AlignMethod::Right => {
                    push_seg(&mut out, spaces_seg(excess, st));
                    push_all(&mut out, line);
                },
            }
        }
        push_seg(&mut out, Segment::line());
        proof {
            assert(segs_view(out@) =~= b + aligned_line(lv[i as int], aw as nat, rw as nat, a, pad, st));
            assert(lv.take(i + 1).drop_last() =~= lv.take(i as int));
            assert(lv.take(i + 1).last() == lv[i as int]);
        }
        i = i + 1;
    }
    assert(lv.take(i as int) =~= lv);
    push_blanks(&mut out, blanks.1, aw, pad, st);
    let ghost body = aligned_body(lv, aw as nat, rw as nat, a, pad, st);
    let ghost blank = blank_line(aw as nat, pad, st);
    proof {
        let out_spec = match (vertical, vh) {
            (Some(v), Some(h)) => if h > rh {
                match v {
                    VerticalAlignMethod::Top => body + copies((h - rh) as nat, blank),
                    VerticalAlignMethod::Middle => {
                        let top = ((h - rh) / 2) as nat;
                        let bottom = (h - top - rh) as nat;
                        copies(top, blank) + body + copies(bottom, blank)
                    },
                    VerticalAlignMethod::Bottom => copies((h - rh) as nat, blank) + body,
                }
            } else {
                body
            },
            _ => body,
        };
        assert(copies(0, blank) =~= Seq::<SegView>::empty());
        assert(segs_view(out@) =~= out_spec);
    }
    if !(st == Style::new()) {
        Segment::apply_style_to_segments(out, Some(st), None)
    } else {
        out
    }
}

impl Align {

    /// What the renderable inside renders on the options.
    pub closed spec fn content_rendered(&self, o: OptionsModel) -> Seq<SegView> {
        self.renderable.rendered(o)
    }

    /// How the renderable inside measures on the options.
    pub closed spec fn content_measured(&self, o: OptionsModel) -> Measurement {
        self.renderable.measured(o)
    }
    /// Align a renderable in the given way (no vertical alignment, padded, default style).
    pub fn new(renderable: Box<dyn Renderable>, align: AlignMethod) -> (r: Self)
        ensures
            r@ == (AlignModel { align, vertical: None, style: null_style(), pad: true, width: None, height: None }),
    {
        Align { renderable, align, vertical: None, style: Style::new(), pad: true, width: None, height: None }
    }

    /// Align a renderable to the left.
    pub fn left(renderable: Box<dyn Renderable>) -> (r: Self)
        ensures
            r@ == (AlignModel { align: AlignMethod::Left, vertical: None, style: null_style(), pad: true, width: None, height: None }),
    {
        Self::new(renderable, AlignMethod::Left)
    }

    /// Center a renderable.
    pub fn center(renderable: Box<dyn Renderable>) -> (r: Self)
        ensures
            r@ == (AlignModel { align: AlignMethod::Center, vertical: None, style: null_style(), pad: true, width: None, height: None }),
    {
        Self::new(renderable, AlignMethod::Center)
    }

    /// Align a renderable to the right.
    pub fn right(renderable: Box<dyn Renderable>) -> (r: Self)
        ensures
            r@ == (AlignModel { align: AlignMethod::Right, vertical: None, style: null_style(), pad: true, width: None, height: None }),
    {
        Self::new(renderable, AlignMethod::Right)
    }

    /// The alignment with a style for the added space.
    pub fn with_style(self, style: Style) -> (r: Self)
        ensures
            r@ == (AlignModel { style, ..self@ }),
    {
        Align { style, ..self }
    }

    /// The alignment with a vertical alignment.
    pub fn with_vertical(self, vertical: VerticalAlignMethod) -> (r: Self)
        ensures
            r@ == (AlignModel { vertical: Some(vertical), ..self@ }),
    {
        Align { vertical: Some(vertical), ..self }
    }

    /// The alignment with right padding on or off.
    pub fn with_pad(self, pad: bool) -> (r: Self)
        ensures
            r@ == (AlignModel { pad, ..self@ }),
    {
        Align { pad, ..self }
    }

    /// The alignment within a fixed width.
    pub fn with_width(self, width: usize) -> (r: Self)
        ensures
            r@ == (AlignModel { width: Some(width), ..self@ }),
    {
        Align { width: Some(width), ..self }
    }

    /// The alignment within a fixed height.
    pub fn with_height(self, height: usize) -> (r: Self)
        ensures
            r@ == (AlignModel { height: Some(height), ..self@ }),
    {
        Align { height: Some(height), ..self }
    }

    /// The horizontal alignment.
    pub fn align(&self) -> (r: AlignMethod)
        ensures
            r == self@.align,
    {
        self.align
    }

    /// The vertical alignment.
    pub fn vertical(&self) -> (r: Option<VerticalAlignMethod>)
        ensures
            r == self@.vertical,
    {
        self.vertical
    }

    /// The style of the added space.
    pub fn style(&self) -> (r: Style)
        ensures
            r == self@.style,
    {
        self.style
    }

    /// Whether the right side is padded.
    pub fn pad(&self) -> (r: bool)
        ensures
            r == self@.pad,
    {
        self.pad
    }

    /// The fixed width.
    pub fn width(&self) -> (r: Option<usize>)
        ensures
            r == self@.width,
    {
        self.width
    }

    /// A description of the settings: `Align { align: .., vertical: .., pad: .., .. }`.
    pub fn debug_string(&self) -> (r: String)
        ensures
            r@ == "Align { align: "@ + align_name(self@.align) + ", vertical: "@
                + vertical_name(self@.vertical) + ", pad: "@ + (if self@.pad { "true"@ } else { "false"@ }) + ", .. }"@,
    {
        let mut s = crate::strs::owned("Align { align: ");
        push_str(&mut s, match self.align {
            AlignMethod::Left => "Left",
            AlignMethod::Center => "Center",
            AlignMethod::Right => "Right",
        });
        push_str(&mut s, ", vertical: ");
        push_str(&mut s, match self.vertical {
            None => "None",
            Some(VerticalAlignMethod::Top) => "Some(Top)",
            Some(VerticalAlignMethod::Middle) => "Some(Middle)",
            Some(VerticalAlignMethod::Bottom) => "Some(Bottom)",
        });
        push_str(&mut s, ", pad: ");
        push_str(&mut s, if self.pad { "true" } else { "false" });
        push_str(&mut s, ", .. }");
        s
    }

    /// The fixed height.
    pub fn height(&self) -> (r: Option<usize>)
        ensures
            r == self@.height,
    {
        self.height
    }
}

/// The lines that aligned content renders to: the content rendered as wide as it
/// measures (at most the room `aw`), with no height, split into lines padded to that
/// width.
pub open spec fn content_lines(a: Align, o: OptionsModel, aw: nat) -> Seq<Seq<SegView>> {
    let m = a.content_measured(o).maximum;
    let cw: usize = if (m as nat) < aw { m } else { aw as usize };
    let ro = OptionsModel { min_width: cw, max_width: cw, height: None, ..o };
    crate::console::lines_of_render(a.content_rendered(ro), None, cw as nat, true, false)
}

impl Renderable for Align {
    open spec fn rendered(&self, o: OptionsModel) -> Seq<SegView> {
        let lines = content_lines(*self, o, available(self@.width, o));
        align_spec(
            crate::segment::set_shape_spec(lines, crate::wrap::satw(max_line_width(lines)), lines.len(), None),
            available(self@.width, o),
            crate::wrap::satw(max_line_width(lines)),
            lines.len(),
            self@.align,
            self@.pad,
            self@.style,
            self@.vertical,
            vertical_height(self@.height, o),
        )
    }

    open spec fn measured(&self, o: OptionsModel) -> Measurement {
        self.content_measured(o)
    }

    fn render(&self, console: &Console, options: &ConsoleOptions) -> (r: Vec<Segment>)
    {
        let available_width = match self.width {
            Some(w) => w,
            None => options.max_width,
        };
        let m = self.renderable.measure(console, options);
        let content_width = if m.maximum < available_width { m.maximum } else { available_width };
        let mut render_options = options.update_width(content_width);
        render_options.height = None;
        let temp = Console::with_options(render_options.copy());
        let segs = self.renderable.render(&temp, &render_options);
        let lines = crate::console::lines_from_render(segs, None, content_width, true, false);
        let shape = Segment::get_shape(&lines);
        let shaped = Segment::set_shape(&lines, shape.0, shape.1, None);
        let vh = match self.height {
            Some(h) => Some(h),
            None => options.height,
        };
        let ghost rv = lines_view(lines@);
        assert(render_options@ == (OptionsModel { min_width: content_width, max_width: content_width, height: None, ..options@ }));
        assert(m == self.content_measured(options@));
        assert(rv == content_lines(*self, options@, available(self@.width, options@)));
        let r = align_lines(&shaped, available_width, shape.0, shape.1, self.align, self.pad, self.style, self.vertical, vh);
        r
    }

    fn measure(&self, console: &Console, options: &ConsoleOptions) -> (r: Measurement) {
        self.renderable.measure(console, options)
    }
}

} // verus!
