//! LiveRender: a renderable that can be replaced, which keeps the shape of its last
//! rendering and gives the control codes that move back over it.
use vstd::prelude::*;
use vstd::cell::invcell::InvCell;
use vstd::predicate::Predicate;
use crate::Renderable;
use crate::console::{Console, ConsoleOptions, OptionsModel, lines_of_render};
use crate::control::Control;
use crate::live::VerticalOverflowMethod;
use crate::measure::Measurement;
use crate::segment::{Segment, SegView, ControlType, segs_view, lines_view};
use crate::strs::{push_repeat, push_str, repeat_spec};
use crate::style::{Style, null_style};
use crate::text::{Text, TextModel, render_text_spec};
use crate::theme::stack_lookup;
use crate::align::push_all;

verus! {

/// Any shape may be held.
struct AnyShape;

impl Predicate<Option<(usize, usize)>> for AnyShape {
    open spec fn predicate(&self, v: Option<(usize, usize)>) -> bool {
        true
    }
}

/// A renderable that can be replaced, keeping the shape (width, height) of its last
/// rendering.
pub struct LiveRender {
    renderable: Box<dyn Renderable>,
    style: Option<Style>,
    vertical_overflow: VerticalOverflowMethod,
    shape: InvCell<Option<(usize, usize)>, AnyShape>,
}

/// The settings of a live render.
pub struct LiveRenderModel {
    /// The style laid beneath the content.
    pub style: Option<Style>,
    /// What happens to lines beyond the terminal's height.
    pub vertical_overflow: VerticalOverflowMethod,
}

impl View for LiveRender {
    type V = LiveRenderModel;

    closed spec fn view(&self) -> LiveRenderModel {
        LiveRenderModel { style: self.style, vertical_overflow: self.vertical_overflow }
    }
}

/// Pairs of "cursor up one line, erase the line", `n` of them.
pub open spec fn up_erase(n: nat) -> Seq<ControlType>
    decreases n,
{
    if n == 0 {
        Seq::empty()
    } else {
        up_erase((n - 1) as nat) + seq![ControlType::CursorUp(1), ControlType::EraseInLine(2)]
    }
}

/// The codes that move to the start of a rendering of the given shape, erasing its
/// lines: carriage return, erase the line, then up and erase for each other line;
/// nothing before any rendering.
pub open spec fn position_spec(shape: Option<(usize, usize)>) -> Seq<ControlType> {
    match shape {
        Some((_, h)) => seq![ControlType::CarriageReturn, ControlType::EraseInLine(2)]
            + up_erase(if h >= 1 { (h - 1) as nat } else { 0 }),
        None => Seq::empty(),
    }
}

/// The codes that clear a rendering of the given shape and go back to where it began:
/// carriage return, then up and erase for each line; nothing before any rendering.
pub open spec fn restore_spec(shape: Option<(usize, usize)>) -> Seq<ControlType> {
    match shape {
        Some((_, h)) => seq![ControlType::CarriageReturn] + up_erase(h as nat),
        None => Seq::empty(),
    }
}

/// Lines fitted to a height: beyond it, cropped, cropped to one line less and ended by
/// the first ellipsis line, or kept.
pub open spec fn fit_lines(lines: Seq<Seq<SegView>>, h: nat, method: VerticalOverflowMethod, ellipsis: Seq<Seq<SegView>>) -> Seq<Seq<SegView>> {
    if lines.len() > h {
        match method {
            VerticalOverflowMethod::Crop => lines.take(h as int),
            VerticalOverflowMethod::Ellipsis => lines.take(if h >= 1 { h - 1 } else { 0 })
                + (if ellipsis.len() > 0 { seq![ellipsis[0]] } else { Seq::empty() }),
            VerticalOverflowMethod::Visible => lines,
        }
    } else {
        lines
    }
}

/// Lines one after another with a newline between them (none after the last).
pub open spec fn join_newlines(lines: Seq<Seq<SegView>>) -> Seq<SegView>
    decreases lines.len(),
{
    if lines.len() == 0 {
        Seq::empty()
    } else {
        join_newlines(lines.drop_last())
            + (if lines.len() > 1 { seq![(seq!['\n'], None::<Style>, None::<ControlType>)] } else { Seq::empty() })
            + lines.last()
    }
}

/// `...` centered in a width (as is where the width is not wider).
pub open spec fn centered_ellipsis(w: nat) -> Seq<char> {
    if w > 3 {
        let l = ((w - 3) / 2) as nat;
        repeat_spec(' ', l) + seq!['.', '.', '.'] + repeat_spec(' ', (w - 3 - l) as nat)
    } else {
        seq!['.', '.', '.']
    }
}

/// The ellipsis line's text: `...` centered in the width, in the theme's
/// `live.ellipsis` style (or no style).
pub open spec fn ellipsis_model(o: OptionsModel) -> TextModel {
    TextModel {
        plain: centered_ellipsis(o.max_width as nat),
        style: Some(match stack_lookup(o.theme_stack, "live.ellipsis"@) { Some(s) => s, None => null_style() }),
        spans: Seq::empty(),
        justify: None,
        overflow: None,
        no_wrap: None,
    }
}

/// The lines of the rendered ellipsis.
pub open spec fn ellipsis_lines(o: OptionsModel) -> Seq<Seq<SegView>> {
    lines_of_render(render_text_spec(ellipsis_model(o), o), None, o.max_width as nat, false, false)
}

/// What a live render gives when its content renders to `segs`: the content's lines at
/// the available width (in its style), fitted to the terminal's height, joined by
/// newlines.
pub open spec fn live_render_spec(m: LiveRenderModel, o: OptionsModel, segs: Seq<SegView>) -> Seq<SegView> {
    join_newlines(fit_lines(
        lines_of_render(segs, m.style, o.max_width as nat, false, false),
        o.size.1 as nat,
        m.vertical_overflow,
        ellipsis_lines(o),
    ))
}

fn position_for(shape: Option<(usize, usize)>) -> (r: Control)
    ensures
        r@ == position_spec(shape),
{
    let mut control = Control::new();
    match shape {
        Some((_, height)) => {
            control.push(ControlType::CarriageReturn);
            control.push(ControlType::EraseInLine(2));
            let n: usize = if height >= 1 { height - 1 } else { 0 };
            let ghost base = control@;
            let mut i: usize = 0;
            while i < n
                invariant
                    i <= n,
                    control@ == base + up_erase(i as nat),
                decreases n - i,
            {
                control.push(ControlType::CursorUp(1));
                control.push(ControlType::EraseInLine(2));
                i = i + 1;
            }
        },
        None => {},
    }
    control
}

fn restore_for(shape: Option<(usize, usize)>) -> (r: Control)
    ensures
        r@ == restore_spec(shape),
{
    let mut control = Control::new();
    match shape {
        Some((_, height)) => {
            control.push(ControlType::CarriageReturn);
            let ghost base = control@;
            let mut i: usize = 0;
            while i < height
                invariant
                    i <= height,
                    control@ == base + up_erase(i as nat),
                decreases height - i,
            {
                control.push(ControlType::CursorUp(1));
                control.push(ControlType::EraseInLine(2));
                i = i + 1;
            }
        },
        None => {},
    }
    control
}

impl LiveRender {

    /// What the renderable inside renders on the options.
    pub closed spec fn content_rendered(&self, o: OptionsModel) -> Seq<SegView> {
        self.renderable.rendered(o)
    }

    /// How the renderable inside measures on the options.
    pub closed spec fn content_measured(&self, o: OptionsModel) -> Measurement {
        self.renderable.measured(o)
    }
    /// A live render of a renderable, no style, an ellipsis for overflow.
    pub fn new<R: Renderable + 'static>(renderable: R) -> (r: Self)
        ensures
            r@ == (LiveRenderModel { style: None, vertical_overflow: VerticalOverflowMethod::Ellipsis }),
    {
        LiveRender {
            renderable: Box::new(renderable),
            style: None,
            vertical_overflow: VerticalOverflowMethod::Ellipsis,
            shape: InvCell::new(None, Ghost(AnyShape)),
        }
    }

    /// The live render with a style beneath its content.
    pub fn with_style(self, style: Style) -> (r: Self)
        ensures
            r@ == (LiveRenderModel { style: Some(style), ..self@ }),
    {
        LiveRender { style: Some(style), ..self }
    }

    /// The live render with another way of handling overflow.
    pub fn with_vertical_overflow(self, method: VerticalOverflowMethod) -> (r: Self)
        ensures
            r@ == (LiveRenderModel { vertical_overflow: method, ..self@ }),
    {
        LiveRender { vertical_overflow: method, ..self }
    }

    /// The height of the last rendering (zero before any). The shape is kept in a cell
    /// written by `render`; what it holds is not tracked by these contracts.
    pub fn last_render_height(&self) -> (r: usize) {
        match self.shape.get() {
            Some((_, h)) => h,
            None => 0,
        }
    }

    /// Replace the renderable.
    pub fn set_renderable<R: Renderable + 'static>(&mut self, renderable: R)
        ensures
            final(self)@ == old(self)@,
    {
        self.renderable = Box::new(renderable);
    }

    /// The codes that move to the start of the last rendering, erasing it line by line
    /// (none before any rendering).
    pub fn position_cursor(&self) -> (r: Control)
        ensures
            exists|shape: Option<(usize, usize)>| r@ == #[trigger] position_spec(shape),
    {
        position_for(self.shape.get())
    }

    /// The codes that clear the last rendering and go back to where it began (none
    /// before any rendering).
    pub fn restore_cursor(&self) -> (r: Control)
        ensures
            exists|shape: Option<(usize, usize)>| r@ == #[trigger] restore_spec(shape),
    {
        restore_for(self.shape.get())
    }
}

/// The ellipsis text for the options.
pub(crate) fn ellipsis_text(options: &ConsoleOptions) -> (r: Text)
    ensures
        r@ == ellipsis_model(options@),
{
    proof {
        reveal_strlit("live.ellipsis");
    }
    let st = match options.get_style("live.ellipsis") {
        Some(s) => s,
        None => Style::new(),
    };
    let w = options.max_width;
    let mut s = String::new();
    if w > 3 {
        let l = (w - 3) / 2;
        push_repeat(&mut s, ' ', l);
        s.push('.');
        s.push('.');
        s.push('.');
        push_repeat(&mut s, ' ', w - 3 - l);
    } else {
        s.push('.');
        s.push('.');
        s.push('.');
    }
    assert(s@ =~= centered_ellipsis(w as nat));
    let t = Text::styled(s.as_str(), st);
    assert(t@.spans =~= Seq::empty());
    assert(t@ == ellipsis_model(options@));
    t
}

impl Renderable for LiveRender {
    open spec fn rendered(&self, o: OptionsModel) -> Seq<SegView> {
        live_render_spec(self@, o, self.content_rendered(o))
    }

    open spec fn measured(&self, o: OptionsModel) -> Measurement {
        self.content_measured(o)
    }

    fn render(&self, console: &Console, options: &ConsoleOptions) -> (r: Vec<Segment>)
    {
        let temp = Console::with_options(options.copy());
        let rendered = self.renderable.render(&temp, options);
        let ghost segs = self.renderable.rendered(options@);
        let mut lines = crate::console::lines_from_render(rendered, self.style, options.max_width, false, false);
        let ghost lv = lines_view(lines@);
        let max_height = options.size.1;
        if lines.len() > max_height {
            match self.vertical_overflow {
                VerticalOverflowMethod::Crop => {
                    lines.truncate(max_height);
                    assert(lines_view(lines@) =~= lv.take(max_height as int));
                },
                VerticalOverflowMethod::Ellipsis => {
                    let keep: usize = if max_height >= 1 { max_height - 1 } else { 0 };
                    lines.truncate(keep);
                    assert(lines_view(lines@) =~= lv.take(keep as int));
                    let et = ellipsis_text(options);
                    let esegs = et.render(console, options);
                    let mut elines = Segment::split_and_crop_lines(esegs, options.max_width, None, false, false);
                    assert(lines_view(elines@) == ellipsis_lines(options@));
                    if elines.len() > 0 {
                        let ghost b = lines_view(lines@);
                        let ghost first = lines_view(elines@)[0];
                        let _rest = elines.split_off(1);
                        let f = elines.pop().unwrap();
                        lines.push(f);
                        assert(lines_view(lines@) =~= b + seq![first]);
                    }
                },
                VerticalOverflowMethod::Visible => {},
            }
        }
        let ghost fitted = lines_view(lines@);
        assert(fitted == fit_lines(lv, max_height as nat, self.vertical_overflow, ellipsis_lines(options@)));
        let shape = Segment::get_shape(&lines);
        self.shape.set(Some(shape));
        let mut out: Vec<Segment> = Vec::new();
        let mut i: usize = 0;
        while i < lines.len()
            invariant
                i <= lines@.len(),
                fitted == lines_view(lines@),
                segs_view(out@) == join_newlines(fitted.take(i as int)),
            decreases lines.len() - i,
        {
            let ghost b = segs_view(out@);
            if i > 0 {
                out.push(Segment::line());
                assert(segs_view(out@) =~= b + seq![(seq!['\n'], None::<Style>, None::<ControlType>)]);
            }
            push_all(&mut out, &lines[i]);
            proof {
                assert(fitted.take(i + 1).drop_last() =~= fitted.take(i as int));
                assert(fitted.take(i + 1).last() == fitted[i as int]);
                if i == 0 {
                    assert(fitted.take(0) =~= Seq::<Seq<SegView>>::empty());
                }
                assert(segs_view(out@) =~= join_newlines(fitted.take(i + 1)));
            }
            i = i + 1;
        }
        assert(fitted.take(i as int) =~= fitted);
        assert(segs_view(out@) == live_render_spec(self@, options@, segs));
        out
    }

    fn measure(&self, console: &Console, options: &ConsoleOptions) -> (r: Measurement) {
        self.renderable.measure(console, options)
    }
}

} // verus!
