//! Padding: space drawn around a renderable, in the manner of CSS padding.
use vstd::prelude::*;
use crate::Renderable;
use crate::align::{copies, push_seg, push_all};
use crate::console::{Console, ConsoleOptions, OptionsModel, lines_of_render};
use crate::measure::{Measurement, min_nat, sat_add};
use crate::segment::{Segment, SegView, ControlType, seg_view, segs_view, lines_view};
use crate::strs::{push_repeat, push_str, repeat_spec, usize_to_string, decimal_spec};
use crate::style::{Style, null_style};
use vstd::std_specs::convert::IntoSpec;

verus! {

/// Padding on the four sides, given in one of the CSS forms.
#[derive(Debug, Clone, Copy, PartialEq, Eq, Structural)]
pub enum PaddingDimensions {
    /// The same padding on all sides.
    All(usize),
    /// (vertical, horizontal): top and bottom share one value, left and right the other.
    TwoWay(usize, usize),
    /// (top, right, bottom, left), in CSS order.
    FourWay(usize, usize, usize, usize),
}

/// The (top, right, bottom, left) padding that dimensions stand for.
pub open spec fn unpack_spec(d: PaddingDimensions) -> (usize, usize, usize, usize) {
    match d {
        PaddingDimensions::All(v) => (v, v, v, v),
        PaddingDimensions::TwoWay(v, h) => (v, h, v, h),
        PaddingDimensions::FourWay(t, r, b, l) => (t, r, b, l),
    }
}

impl PaddingDimensions {
    /// The padding as (top, right, bottom, left), in CSS order.
    pub fn unpack(&self) -> (r: (usize, usize, usize, usize))
        ensures
            r == unpack_spec(*self),
    {
        match *self {
            PaddingDimensions::All(v) => (v, v, v, v),
            PaddingDimensions::TwoWay(v, h) => (v, h, v, h),
            PaddingDimensions::FourWay(t, r, b, l) => (t, r, b, l),
        }
    }
}

impl From<usize> for PaddingDimensions {
    fn from(v: usize) -> (r: Self) {
        PaddingDimensions::All(v)
    }
}

impl vstd::std_specs::convert::FromSpecImpl<usize> for PaddingDimensions {
    open spec fn obeys_from_spec() -> bool {
        true
    }

    open spec fn from_spec(v: usize) -> Self {
        PaddingDimensions::All(v)
    }
}

impl From<(usize,)> for PaddingDimensions {
    fn from(v: (usize,)) -> (r: Self) {
        PaddingDimensions::All(v.0)
    }
}

impl vstd::std_specs::convert::FromSpecImpl<(usize,)> for PaddingDimensions {
    open spec fn obeys_from_spec() -> bool {
        true
    }

    open spec fn from_spec(v: (usize,)) -> Self {
        PaddingDimensions::All(v.0)
    }
}

impl From<(usize, usize)> for PaddingDimensions {
    fn from(v: (usize, usize)) -> (r: Self) {
        PaddingDimensions::TwoWay(v.0, v.1)
    }
}

impl vstd::std_specs::convert::FromSpecImpl<(usize, usize)> for PaddingDimensions {
    open spec fn obeys_from_spec() -> bool {
        true
    }

    open spec fn from_spec(v: (usize, usize)) -> Self {
        PaddingDimensions::TwoWay(v.0, v.1)
    }
}

impl From<(usize, usize, usize, usize)> for PaddingDimensions {
    fn from(v: (usize, usize, usize, usize)) -> (r: Self) {
        PaddingDimensions::FourWay(v.0, v.1, v.2, v.3)
    }
}

impl vstd::std_specs::convert::FromSpecImpl<(usize, usize, usize, usize)> for PaddingDimensions {
    open spec fn obeys_from_spec() -> bool {
        true
    }

    open spec fn from_spec(v: (usize, usize, usize, usize)) -> Self {
        PaddingDimensions::FourWay(v.0, v.1, v.2, v.3)
    }
}

/// A renderable with blank space drawn around it.
pub struct Padding {
    renderable: Box<dyn Renderable>,
    top: usize,
    right: usize,
    bottom: usize,
    left: usize,
    style: Style,
    expand: bool,
}

/// The settings of a padding.
pub struct PaddingModel {
    /// Blank lines above.
    pub top: usize,
    /// Spaces on the right.
    pub right: usize,
    /// Blank lines below.
    pub bottom: usize,
    /// Spaces on the left.
    pub left: usize,
    /// Style of the padding (and beneath the content).
    pub style: Style,
    /// Whether the block fills the available width.
    pub expand: bool,
}

impl View for Padding {
    type V = PaddingModel;

    closed spec fn view(&self) -> PaddingModel {
        PaddingModel {
            top: self.top,
            right: self.right,
            bottom: self.bottom,
            left: self.left,
            style: self.style,
            expand: self.expand,
        }
    }
}

/// The settings of a padding made from dimensions: default style, expanding.
pub open spec fn model_of(d: PaddingDimensions) -> PaddingModel {
    let (t, r, b, l) = unpack_spec(d);
    PaddingModel { top: t, right: r, bottom: b, left: l, style: null_style(), expand: true }
}

impl Padding {

    /// What the renderable inside renders on the options.
    pub closed spec fn content_rendered(&self, o: OptionsModel) -> Seq<SegView> {
        self.renderable.rendered(o)
    }

    /// How the renderable inside measures on the options.
    pub closed spec fn content_measured(&self, o: OptionsModel) -> Measurement {
        self.renderable.measured(o)
    }
    /// Pad a renderable; `pad` gives one, two or four values, CSS style.
    pub fn new<P: Into<PaddingDimensions>>(renderable: Box<dyn Renderable>, pad: P) -> (r: Self)
        ensures
            P::obeys_into_spec() ==> r@ == model_of(pad.into_spec()),
            r@.style == null_style(),
            r@.expand,
    {
        let d: PaddingDimensions = pad.into();
        let (top, right, bottom, left) = d.unpack();
        Padding { renderable, top, right, bottom, left, style: Style::new(), expand: true }
    }

    /// Indent a renderable: left padding only, not expanding.
    pub fn indent(renderable: Box<dyn Renderable>, level: usize) -> (r: Self)
        ensures
            r@ == (PaddingModel { top: 0, right: 0, bottom: 0, left: level, style: null_style(), expand: false }),
    {
        Padding { renderable, top: 0, right: 0, bottom: 0, left: level, style: Style::new(), expand: false }
    }

    /// The (top, right, bottom, left) padding that a value of one, two or four numbers
    /// stands for.
    pub fn unpack<P: Into<PaddingDimensions>>(pad: P) -> (r: (usize, usize, usize, usize))
        ensures
            P::obeys_into_spec() ==> r == unpack_spec(pad.into_spec()),
    {
        let d: PaddingDimensions = pad.into();
        d.unpack()
    }

    /// The padding with a style for the padding (also laid beneath the content).
    pub fn with_style(self, style: Style) -> (r: Self)
        ensures
            r@ == (PaddingModel { style, ..self@ }),
    {
        Padding { style, ..self }
    }

    /// The padding filling the available width or not.
    pub fn with_expand(self, expand: bool) -> (r: Self)
        ensures
            r@ == (PaddingModel { expand, ..self@ }),
    {
        Padding { expand, ..self }
    }

    /// Blank lines above.
    pub fn top(&self) -> (r: usize)
        ensures
            r == self@.top,
    {
        self.top
    }

    /// Spaces on the right.
    pub fn right(&self) -> (r: usize)
        ensures
            r == self@.right,
    {
        self.right
    }

    /// Blank lines below.
    pub fn bottom(&self) -> (r: usize)
        ensures
            r == self@.bottom,
    {
        self.bottom
    }

    /// Spaces on the left.
    pub fn left(&self) -> (r: usize)
        ensures
            r == self@.left,
    {
        self.left
    }

    /// The style of the padding.
    pub fn style(&self) -> (r: Style)
        ensures
            r == self@.style,
    {
        self.style
    }

    /// Whether the block fills the available width.
    pub fn expand(&self) -> (r: bool)
        ensures
            r == self@.expand,
    {
        self.expand
    }

    /// A description of the settings:
    /// `Padding { top: .., right: .., bottom: .., left: .., expand: .., .. }`.
    pub fn debug_string(&self) -> (r: String)
        ensures
            r@ == "Padding { top: "@ + decimal_spec(self@.top as nat) + ", right: "@ + decimal_spec(self@.right as nat)
                + ", bottom: "@ + decimal_spec(self@.bottom as nat) + ", left: "@ + decimal_spec(self@.left as nat)
                + ", expand: "@ + (if self@.expand { "true"@ } else { "false"@ }) + ", .. }"@,
    {
        let mut s = crate::strs::owned("Padding { top: ");
        push_str(&mut s, usize_to_string(self.top).as_str());
        push_str(&mut s, ", right: ");
        push_str(&mut s, usize_to_string(self.right).as_str());
        push_str(&mut s, ", bottom: ");
        push_str(&mut s, usize_to_string(self.bottom).as_str());
        push_str(&mut s, ", left: ");
        push_str(&mut s, usize_to_string(self.left).as_str());
        push_str(&mut s, ", expand: ");
        push_str(&mut s, if self.expand { "true" } else { "false" });
        push_str(&mut s, ", .. }");
        s
    }
}

/// The width of the padded block: all the available width when expanding, else the
/// widest content line plus both sides, at most the available width.
pub open spec fn block_width(p: PaddingModel, max_width: nat, content_max: nat) -> nat {
    if p.expand {
        max_width
    } else {
        min_nat(sat_add(sat_add(content_max, p.left as nat), p.right as nat), max_width)
    }
}

/// `w * l / t` rounded to the nearest whole number, halves up.
pub open spec fn share_rounded(w: nat, l: nat, t: nat) -> nat {
    (w * l) / t + (if 2 * ((w * l) % t) >= t { 1nat } else { 0nat })
}

/// (left side, right side, content width) in a block of `w` cells: the sides as given
/// when they leave room for content, else the `w` cells shared between the sides in
/// their proportion and no room for content.
pub open spec fn sides(l: nat, r: nat, w: nat) -> (nat, nat, nat) {
    let t = sat_add(l, r);
    if t >= w {
        if t == 0 {
            (0, 0, w)
        } else {
            let sl = share_rounded(w, l, t);
            (sl, if w >= sl { (w - sl) as nat } else { 0 }, 0)
        }
    } else {
        (l, r, (w - t) as nat)
    }
}

/// A run of `n` spaces in a style.
pub open spec fn space_seg(n: nat, st: Style) -> SegView {
    (repeat_spec(' ', n), Some(st), None::<ControlType>)
}

/// A content line with its sides and a newline.
pub open spec fn padded_line(line: Seq<SegView>, el: nat, er: nat, st: Style) -> Seq<SegView> {
    (if el > 0 { seq![space_seg(el, st)] } else { Seq::empty() }) + line
        + (if er > 0 { seq![space_seg(er, st)] } else { Seq::empty() })
        + seq![(seq!['\n'], None::<Style>, None::<ControlType>)]
}

/// All content lines with their sides.
pub open spec fn padded_body(lines: Seq<Seq<SegView>>, el: nat, er: nat, st: Style) -> Seq<SegView>
    decreases lines.len(),
{
    if lines.len() == 0 {
        Seq::empty()
    } else {
        padded_body(lines.drop_last(), el, er, st) + padded_line(lines.last(), el, er, st)
    }
}

/// A blank line of `w` spaces in a style.
pub open spec fn blank_row(w: nat, st: Style) -> SegView {
    (repeat_spec(' ', w) + seq!['\n'], Some(st), None::<ControlType>)
}

/// Content lines framed by sides of `el` and `er` spaces, with `top` blank lines of
/// `w` spaces above and `bottom` below.
pub open spec fn padded_spec(lines: Seq<Seq<SegView>>, w: nat, el: nat, er: nat, top: nat, bottom: nat, st: Style) -> Seq<SegView> {
    copies(top, blank_row(w, st)) + padded_body(lines, el, er, st) + copies(bottom, blank_row(w, st))
}

/// The style laid beneath the content: the padding's, unless it sets nothing.
pub open spec fn content_style(st: Style) -> Option<Style> {
    if st == null_style() { None } else { Some(st) }
}

/// What a padding renders when its content is `content_max` cells wide at most and
/// renders to `segs`: the content's lines, made as wide as the room between the sides,
/// framed.
pub open spec fn padding_render_spec(p: PaddingModel, o: OptionsModel, content_max: nat, segs: Seq<SegView>) -> Seq<SegView> {
    let w = block_width(p, o.max_width as nat, content_max);
    let sd = sides(p.left as nat, p.right as nat, w);
    padded_spec(
        lines_of_render(segs, content_style(p.style), sd.2, true, false),
        w,
        sd.0,
        sd.1,
        p.top as nat,
        p.bottom as nat,
        p.style,
    )
}

/// The measurement of a padding whose content measures `inner`: the whole available
/// width when the sides leave no room, else the content's widths plus the sides, at most
/// the available width.
pub open spec fn padding_measure_spec(p: PaddingModel, max_width: nat, inner: Measurement) -> Measurement {
    let extra = sat_add(p.left as nat, p.right as nat);
    if max_width <= extra {
        Measurement { minimum: max_width as usize, maximum: max_width as usize }
    } else {
        Measurement {
            minimum: min_nat(sat_add(inner.minimum as nat, extra), max_width) as usize,
            maximum: min_nat(sat_add(inner.maximum as nat, extra), max_width) as usize,
        }
    }
}

/// The sides and content width of a block `w` cells wide (see `sides`).
pub(crate) fn padded_sides(l: usize, r: usize, w: usize) -> (s: (usize, usize, usize))
    ensures
        s.0 as nat == sides(l as nat, r as nat, w as nat).0,
        s.1 as nat == sides(l as nat, r as nat, w as nat).1,
        s.2 as nat == sides(l as nat, r as nat, w as nat).2,
{
    let total = l.saturating_add(r);
    if total >= w {
        if total == 0 {
            (0, 0, w)
        } else {
            let sl = share_left(w, l, total);
            (sl, w.saturating_sub(sl), 0)
        }
    } else {
        (l, r, w - total)
    }
}

fn share_left(w: usize, l: usize, t: usize) -> (r: usize)
    requires
        t > 0,
        l <= t,
    ensures
        r == share_rounded(w as nat, l as nat, t as nat),
{
    assert((w as int) * (l as int) <= 0xffff_ffff_ffff_ffff_ffff_ffff_ffff_ffff) by (nonlinear_arith)
        requires
            w <= 0xffff_ffff_ffff_ffff,
            l <= 0xffff_ffff_ffff_ffff,
    ;
    let p: u128 = (w as u128) * (l as u128);
    let tt: u128 = t as u128;
    let q: u128 = p / tt;
    let rem: u128 = p % tt;
    proof {
        vstd::arithmetic::div_mod::lemma_fundamental_div_mod(p as int, tt as int);
        assert(q <= w && (rem > 0 ==> q < w)) by (nonlinear_arith)
            requires
                p == (w as int) * (l as int),
                q == p / tt,
                rem == p % tt,
                tt > 0,
                l <= tt,
                p == q * tt + rem,
                0 <= rem < tt,
        ;
    }
    let up: u128 = if 2 * rem >= tt { 1 } else { 0 };
    (q + up) as usize
}

fn space_segment(n: usize, st: Style) -> (r: Segment)
    ensures
        seg_view(r) == space_seg(n as nat, st),
{
    let mut t = String::new();
    push_repeat(&mut t, ' ', n);
    Segment { text: t, style: Some(st), control: None, link: None }
}

fn push_blank_rows(out: &mut Vec<Segment>, n: usize, w: usize, st: Style)
    ensures
        segs_view(final(out)@) == segs_view(old(out)@) + copies(n as nat, blank_row(w as nat, st)),
{
    let mut k: usize = 0;
    let ghost b = segs_view(out@);
    while k < n
        invariant
            k <= n,
            segs_view(out@) =~= b + copies(k as nat, blank_row(w as nat, st)),
        decreases n - k,
    {
        let mut t = String::new();
        push_repeat(&mut t, ' ', w);
        t.push('\n');
        assert(t@ =~= repeat_spec(' ', w as nat) + seq!['\n']);
        push_seg(out, Segment { text: t, style: Some(st), control: None, link: None });
        assert(copies((k + 1) as nat, blank_row(w as nat, st)) =~= copies(k as nat, blank_row(w as nat, st)).push(blank_row(w as nat, st)));
        k = k + 1;
    }
}

/// Frame content lines with sides of `el` and `er` spaces and `top` and `bottom` blank
/// lines of `w` spaces.
pub(crate) fn frame_lines(lines: &Vec<Vec<Segment>>, w: usize, el: usize, er: usize, top: usize, bottom: usize, st: Style) -> (r: Vec<Segment>)
    ensures
        segs_view(r@) == padded_spec(lines_view(lines@), w as nat, el as nat, er as nat, top as nat, bottom as nat, st),
{
    let mut out: Vec<Segment> = Vec::new();
    push_blank_rows(&mut out, top, w, st);
    let ghost before = segs_view(out@);
    let ghost lv = lines_view(lines@);
    let mut i: usize = 0;
    while i < lines.len()
        invariant
            i <= lines.len(),
            lv == lines_view(lines@),
            segs_view(out@) =~= before + padded_body(lv.take(i as int), el as nat, er as nat, st),
        decreases lines.len() - i,
    {
        let ghost b = segs_view(out@);
        if el > 0 {
            push_seg(&mut out, space_segment(el, st));
        }
        push_all(&mut out, &lines[i]);
        if er > 0 {
            push_seg(&mut out, space_segment(er, st));
        }
        push_seg(&mut out, Segment::line());
        proof {
            assert(segs_view(out@) =~= b + padded_line(lv[i as int], el as nat, er as nat, st));
            assert(lv.take(i + 1).drop_last() =~= lv.take(i as int));
            assert(lv.take(i + 1).last() == lv[i as int]);
        }
        i = i + 1;
    }
    assert(lv.take(i as int) =~= lv);
    push_blank_rows(&mut out, bottom, w, st);
    out
}

/// The widest the content of a padding measures (nothing when the padding expands).
pub open spec fn padded_content_max(p: PaddingModel, inner: Measurement) -> nat {
    if p.expand { 0 } else { inner.maximum as nat }
}

/// The options the content of a padding renders in: the room between the sides, and a
/// height without the blank rows.
pub open spec fn padded_options(p: PaddingModel, o: OptionsModel, m: nat) -> OptionsModel {
    let w = block_width(p, o.max_width as nat, m);
    let cw = sides(p.left as nat, p.right as nat, w).2 as usize;
    let o1 = OptionsModel { min_width: cw, max_width: cw, ..o };
    match o1.height {
        Some(h) => {
            let tb: nat = sat_add(p.top as nat, p.bottom as nat);
            let nh: usize = if h >= tb { (h - tb) as usize } else { 0 };
            OptionsModel { max_height: nh, height: Some(nh), ..o1 }
        },
        None => o1,
    }
}

impl Renderable for Padding {
    open spec fn rendered(&self, o: OptionsModel) -> Seq<SegView> {
        let m = padded_content_max(self@, self.content_measured(o));
        padding_render_spec(self@, o, m, self.content_rendered(padded_options(self@, o, m)))
    }

    open spec fn measured(&self, o: OptionsModel) -> Measurement {
        padding_measure_spec(self@, o.max_width as nat, self.content_measured(o))
    }

    fn render(&self, console: &Console, options: &ConsoleOptions) -> (r: Vec<Segment>)
    {
        let m: usize = if self.expand { 0 } else { self.renderable.measure(console, options).maximum };
        let width: usize = if self.expand {
            options.max_width
        } else {
            let s = m.saturating_add(self.left).saturating_add(self.right);
            if s <= options.max_width { s } else { options.max_width }
        };
        let total = self.left.saturating_add(self.right);
        let sd: (usize, usize, usize) = if total >= width {
            if total == 0 {
                (0, 0, width)
            } else {
                let sl = share_left(width, self.left, total);
                (sl, width.saturating_sub(sl), 0)
            }
        } else {
            (self.left, self.right, width - total)
        };
        let ro0 = options.update_width(sd.2);
        let ro = match ro0.height {
            Some(h) => ro0.update_height(h.saturating_sub(self.top.saturating_add(self.bottom))),
            None => ro0,
        };
        let style_arg = if self.style.is_null() { None } else { Some(self.style) };
        let ghost mm = padded_content_max(self@, self.content_measured(options@));
        assert(m as nat == mm);
        assert(ro@ == padded_options(self@, options@, mm));
        let temp = Console::with_options(ro.copy());
        let rendered = self.renderable.render(&temp, &ro);
        let ghost segs = self.renderable.rendered(ro@);
        let lines = crate::console::lines_from_render(rendered, style_arg, ro.max_width, true, false);
        let r = frame_lines(&lines, width, sd.0, sd.1, self.top, self.bottom, self.style);
        assert(segs_view(r@) == padding_render_spec(self@, options@, m as nat, segs));
        r
    }

    fn measure(&self, console: &Console, options: &ConsoleOptions) -> (r: Measurement)
    {
        let max_width = options.max_width;
        let extra = self.left.saturating_add(self.right);
        if max_width <= extra {
            let r = Measurement::new(max_width, max_width);
            assert(r == padding_measure_spec(self@, options@.max_width as nat, self.renderable.measured(options@)));
            return r;
        }
        let inner = self.renderable.measure(console, options);
        let m = Measurement::new(inner.minimum.saturating_add(extra), inner.maximum.saturating_add(extra));
        let r = m.with_maximum(max_width);
        assert(r == padding_measure_spec(self@, options@.max_width as nat, inner));
        r
    }
}

} // verus!
