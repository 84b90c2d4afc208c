//! Containers of renderables: `Group` renders its children one after another on
//! lines of their own, `Renderables` one after another as they come, and `Lines` is a
//! list of text lines rendered one per row.
use vstd::prelude::*;
use crate::Renderable;
use crate::console::{Console, ConsoleOptions, OptionsModel};
use crate::measure::{Measurement, union_all, union_measurements, measure_text};
use crate::segment::{Segment, SegView, ControlType, seg_view, segs_view};
use crate::style::Style;
use crate::text::{Text, TextModel, render_text_spec};
use crate::align::push_all;

verus! {

/// Whether the text of the last segment that is not a control and not empty ends a
/// line (in `\n` or `\n\r`); false when there is none.
pub open spec fn ends_with_newline(segs: Seq<SegView>) -> bool
    decreases segs.len(),
{
    if segs.len() == 0 {
        false
    } else {
        let s = segs.last();
        if s.2 is Some || s.0.len() == 0 {
            ends_with_newline(segs.drop_last())
        } else {
            s.0.last() == '\n' || (s.0.len() >= 2 && s.0[s.0.len() - 2] == '\n' && s.0.last() == '\r')
        }
    }
}

/// Renderings joined one after another; with `newlines`, a newline goes before each
/// one but the first where what came before does not end a line.
pub open spec fn join_children(rs: Seq<Seq<SegView>>, newlines: bool) -> Seq<SegView>
    decreases rs.len(),
{
    if rs.len() == 0 {
        Seq::empty()
    } else {
        let acc = join_children(rs.drop_last(), newlines);
        if newlines && rs.len() > 1 && !ends_with_newline(acc) {
            acc + seq![(seq!['\n'], None::<Style>, None::<ControlType>)] + rs.last()
        } else {
            acc + rs.last()
        }
    }
}

/// Whether rendered segments end a line (see `ends_with_newline`).
pub fn segments_end_with_newline(segments: &Vec<Segment>) -> (r: bool)
    ensures
        r == ends_with_newline(segs_view(segments@)),
{
    let ghost sv = segs_view(segments@);
    assert(sv.take(segments@.len() as int) =~= sv);
    let mut i: usize = segments.len();
    while i > 0
        invariant
            i <= segments.len(),
            sv == segs_view(segments@),
            ends_with_newline(sv) == ends_with_newline(sv.take(i as int)),
        decreases i,
    {
        let seg = &segments[i - 1];
        proof {
            assert(sv.take(i as int).last() == seg_view(*seg));
            assert(sv.take(i as int).drop_last() =~= sv.take(i - 1));
        }
        if seg.control.is_none() {
            let t = seg.text.as_str();
            let n = t.unicode_len();
            if n > 0 {
                let last = t.get_char(n - 1);
                if last == '\n' {
                    return true;
                }
                if n >= 2 && last == '\r' && t.get_char(n - 2) == '\n' {
                    return true;
                }
                return false;
            }
        }
        i = i - 1;
    }
    assert(sv.take(0) =~= Seq::<SegView>::empty());
    false
}

fn push_newline(out: &mut Vec<Segment>)
    ensures
        segs_view(final(out)@) == segs_view(old(out)@) + seq![(seq!['\n'], None::<Style>, None::<ControlType>)],
{
    let ghost b = segs_view(out@);
    out.push(Segment::line());
    assert(segs_view(out@) =~= b + seq![(seq!['\n'], None::<Style>, None::<ControlType>)]);
}

/// Render children one after another, on the same options; with `newlines`, a newline
/// before each but the first where the output so far does not end a line.
/// What children render on the options, in order.
pub open spec fn child_renders(children: Seq<Child>, o: OptionsModel) -> Seq<Seq<SegView>> {
    children.map_values(|c: Child| c.rendered(o))
}

/// How children measure on the options, in order.
pub open spec fn child_measures(children: Seq<Child>, o: OptionsModel) -> Seq<Measurement> {
    children.map_values(|c: Child| c.measured(o))
}

fn render_children(children: &Vec<Child>, console: &Console, options: &ConsoleOptions, newlines: bool) -> (r: Vec<Segment>)
    ensures
        segs_view(r@) == join_children(child_renders(children@, options@), newlines),
{
    let mut out: Vec<Segment> = Vec::new();
    let ghost mut rs: Seq<Seq<SegView>> = Seq::empty();
    let ghost all = child_renders(children@, options@);
    let mut i: usize = 0;
    while i < children.len()
        invariant
            i <= children.len(),
            all == child_renders(children@, options@),
            rs == all.take(i as int),
            segs_view(out@) == join_children(rs, newlines),
        decreases children.len() - i,
    {
        let segs = children[i].r.render(console, options);
        if newlines && i > 0 && !segments_end_with_newline(&out) {
            push_newline(&mut out);
        }
        push_all(&mut out, &segs);
        proof {
            let nrs = rs.push(segs_view(segs@));
            assert(nrs.drop_last() =~= rs);
            assert(all[i as int] == children@[i as int].rendered(options@));
            assert(nrs =~= all.take(i + 1));
            rs = nrs;
        }
        i = i + 1;
    }
    assert(all.take(i as int) =~= all);
    out
}

/// Measure children on the options: the largest minimum and the largest maximum.
fn measure_children(children: &Vec<Child>, console: &Console, options: &ConsoleOptions) -> (r: Measurement)
    ensures
        r == union_all(child_measures(children@, options@)),
{
    let mut ms: Vec<Measurement> = Vec::new();
    let ghost all = child_measures(children@, options@);
    let mut i: usize = 0;
    while i < children.len()
        invariant
            i <= children.len(),
            all == child_measures(children@, options@),
            ms@ == all.take(i as int),
        decreases children.len() - i,
    {
        let m = children[i].r.measure(console, options);
        ms.push(m);
        assert(all[i as int] == children@[i as int].measured(options@));
        assert(ms@ =~= all.take(i + 1));
        i = i + 1;
    }
    assert(all.take(i as int) =~= all);
    union_measurements(&ms)
}

/// A child of a container: a boxed renderable, which renders and measures as it does.
pub struct Child {
    r: Box<dyn Renderable>,
}

impl Child {

    /// What the renderable held renders on the options.
    pub closed spec fn inner_rendered(&self, o: OptionsModel) -> Seq<SegView> {
        self.r.rendered(o)
    }

    /// How the renderable held measures on the options.
    pub closed spec fn inner_measured(&self, o: OptionsModel) -> Measurement {
        self.r.measured(o)
    }
    /// A child holding a boxed renderable.
    pub fn new(renderable: Box<dyn Renderable>) -> (r: Self) {
        Child { r: renderable }
    }

}

impl Renderable for Child {
    open spec fn rendered(&self, o: crate::console::OptionsModel) -> Seq<crate::segment::SegView> {
        self.inner_rendered(o)
    }

    open spec fn measured(&self, o: crate::console::OptionsModel) -> Measurement {
        self.inner_measured(o)
    }

    fn render(&self, console: &Console, options: &ConsoleOptions) -> (r: Vec<Segment>) {
        self.r.render(console, options)
    }

    fn measure(&self, console: &Console, options: &ConsoleOptions) -> (r: Measurement) {
        self.r.measure(console, options)
    }
}

/// A renderable held as a child.
fn hold<R: Renderable + 'static>(renderable: R) -> (r: Child) {
    Child { r: Box::new(renderable) }
}

/// A boxed renderable held as a child.
fn hold_boxed(renderable: Box<dyn Renderable>) -> (r: Child) {
    Child { r: renderable }
}

/// Children of any renderable type, in their order.
fn hold_all<R: Renderable + 'static>(items: Vec<R>) -> (r: Vec<Child>)
    ensures
        r@.len() == items@.len(),
{
    let mut items = items;
    let mut rev: Vec<R> = Vec::new();
    let ghost n = items@.len();
    while items.len() > 0
        invariant
            rev@.len() + items@.len() == n,
        decreases items@.len(),
    {
        rev.push(items.pop().unwrap());
    }
    let mut out: Vec<Child> = Vec::new();
    while rev.len() > 0
        invariant
            rev@.len() + out@.len() == n,
        decreases rev@.len(),
    {
        out.push(hold(rev.pop().unwrap()));
    }
    out
}

/// Boxed children, in their order.
pub(crate) fn hold_all_boxed(items: Vec<Box<dyn Renderable>>) -> (r: Vec<Child>)
    ensures
        r@.len() == items@.len(),
{
    let mut items = items;
    let mut rev: Vec<Child> = Vec::new();
    let ghost n = items@.len();
    while items.len() > 0
        invariant
            rev@.len() + items@.len() == n,
        decreases items@.len(),
    {
        rev.push(hold_boxed(items.pop().unwrap()));
    }
    let mut out: Vec<Child> = Vec::new();
    while rev.len() > 0
        invariant
            rev@.len() + out@.len() == n,
        decreases rev@.len(),
    {
        out.push(rev.pop().unwrap());
    }
    out
}

/// Renderables rendered one after another, each starting on a line of its own.
pub struct Group {
    renderables: Vec<Child>,
    fit: bool,
}

/// The settings of a group.
pub struct GroupModel {
    /// How many children there are.
    pub len: nat,
    /// Whether its measurement fits its children (else it fills the available width).
    pub fit: bool,
}

impl View for Group {
    type V = GroupModel;

    closed spec fn view(&self) -> GroupModel {
        GroupModel { len: self.renderables@.len(), fit: self.fit }
    }
}

impl Default for Group {
    fn default() -> (r: Self)
        ensures
            r@ == (GroupModel { len: 0, fit: false }),
    {
        Group { renderables: Vec::new(), fit: false }
    }
}

impl Group {

    /// The children, in order.
    pub closed spec fn children(&self) -> Seq<Child> {
        self.renderables@
    }
    /// A group of the given renderables, fitting its children.
    pub fn new<R: Renderable + 'static>(renderables: Vec<R>) -> (r: Self)
        ensures
            r@ == (GroupModel { len: renderables@.len(), fit: true }),
    {
        Group { renderables: hold_all(renderables), fit: true }
    }

    /// A group of boxed renderables, fitting its children.
    pub fn from_arcs(renderables: Vec<Box<dyn Renderable>>) -> (r: Self)
        ensures
            r@ == (GroupModel { len: renderables@.len(), fit: true }),
    {
        Group { renderables: hold_all_boxed(renderables), fit: true }
    }

    /// The group measuring to fit its children, or to fill the available width.
    pub fn with_fit(self, fit: bool) -> (r: Self)
        ensures
            r@ == (GroupModel { fit, ..self@ }),
    {
        Group { fit, ..self }
    }

    /// The children.
    pub fn renderables(&self) -> (r: &[Child])
        ensures
            r@.len() == self@.len,
    {
        self.renderables.as_slice()
    }

    /// A description: `Group { len: .., fit: .. }`.
    pub fn debug_string(&self) -> (r: String)
        ensures
            r@ == "Group { len: "@ + crate::strs::decimal_spec(self@.len) + ", fit: "@
                + (if self@.fit { "true"@ } else { "false"@ }) + " }"@,
    {
        let mut s = crate::strs::owned("Group { len: ");
        crate::strs::push_str(&mut s, crate::strs::usize_to_string(self.renderables.len()).as_str());
        crate::strs::push_str(&mut s, ", fit: ");
        crate::strs::push_str(&mut s, if self.fit { "true" } else { "false" });
        crate::strs::push_str(&mut s, " }");
        s
    }
}

impl Renderable for Group {
    open spec fn rendered(&self, o: crate::console::OptionsModel) -> Seq<SegView> {
        join_children(child_renders(self.children(), o), true)
    }

    open spec fn measured(&self, o: crate::console::OptionsModel) -> Measurement {
        if self@.fit {
            union_all(child_measures(self.children(), o))
        } else {
            Measurement { minimum: o.max_width, maximum: o.max_width }
        }
    }

    fn render(&self, console: &Console, options: &ConsoleOptions) -> (r: Vec<Segment>)
    {
        render_children(&self.renderables, console, options, true)
    }

    fn measure(&self, console: &Console, options: &ConsoleOptions) -> (r: Measurement)
    {
        if self.fit {
            measure_children(&self.renderables, console, options)
        } else {
            Measurement::exact(options.max_width)
        }
    }
}

/// Renderables rendered one after another, as they come.
pub struct Renderables {
    renderables: Vec<Child>,
}

impl View for Renderables {
    type V = nat;

    /// How many children there are.
    closed spec fn view(&self) -> nat {
        self.renderables@.len()
    }
}

impl Default for Renderables {
    fn default() -> (r: Self)
        ensures
            r@ == 0,
    {
        Renderables { renderables: Vec::new() }
    }
}

impl Renderables {

    /// The children, in order.
    pub closed spec fn children(&self) -> Seq<Child> {
        self.renderables@
    }
    /// A container of the given renderables.
    pub fn new<R: Renderable + 'static>(renderables: Vec<R>) -> (r: Self)
        ensures
            r@ == renderables@.len(),
    {
        Renderables { renderables: hold_all(renderables) }
    }

    /// A container of boxed renderables.
    pub fn from_arcs(renderables: Vec<Box<dyn Renderable>>) -> (r: Self)
        ensures
            r@ == renderables@.len(),
    {
        Renderables { renderables: hold_all_boxed(renderables) }
    }

    /// An empty container.
    pub fn empty() -> (r: Self)
        ensures
            r@ == 0,
    {
        Renderables { renderables: Vec::new() }
    }

    /// Add a renderable at the end.
    pub fn push<R: Renderable + 'static>(&mut self, renderable: R)
        ensures
            final(self)@ == old(self)@ + 1,
    {
        self.renderables.push(hold(renderable));
    }

    /// Add a boxed renderable at the end.
    pub fn push_arc(&mut self, renderable: Box<dyn Renderable>)
        ensures
            final(self)@ == old(self)@ + 1,
    {
        self.renderables.push(hold_boxed(renderable));
    }

    /// The children.
    pub fn renderables(&self) -> (r: &[Child])
        ensures
            r@.len() == self@,
    {
        self.renderables.as_slice()
    }

    /// A description: `Renderables { len: .. }`.
    pub fn debug_string(&self) -> (r: String)
        ensures
            r@ == "Renderables { len: "@ + crate::strs::decimal_spec(self@) + " }"@,
    {
        let mut s = crate::strs::owned("Renderables { len: ");
        crate::strs::push_str(&mut s, crate::strs::usize_to_string(self.renderables.len()).as_str());
        crate::strs::push_str(&mut s, " }");
        s
    }
}

impl Renderable for Renderables {
    open spec fn rendered(&self, o: crate::console::OptionsModel) -> Seq<SegView> {
        join_children(child_renders(self.children(), o), false)
    }

    open spec fn measured(&self, o: crate::console::OptionsModel) -> Measurement {
        if self.children().len() == 0 {
            Measurement { minimum: 1, maximum: 1 }
        } else {
            union_all(child_measures(self.children(), o))
        }
    }

    fn render(&self, console: &Console, options: &ConsoleOptions) -> (r: Vec<Segment>)
    {
        render_children(&self.renderables, console, options, false)
    }

    fn measure(&self, console: &Console, options: &ConsoleOptions) -> (r: Measurement)
    {
        if self.renderables.len() == 0 {
            return Measurement::new(1, 1);
        }
        measure_children(&self.renderables, console, options)
    }
}

/// Text lines, rendered one per row.
#[derive(Clone)]
pub struct Lines {
    lines: Vec<Text>,
}

/// The models of texts.
pub open spec fn text_models(v: Seq<Text>) -> Seq<TextModel> {
    v.map_values(|t: Text| t@)
}

impl View for Lines {
    type V = Seq<TextModel>;

    closed spec fn view(&self) -> Seq<TextModel> {
        text_models(self.lines@)
    }
}

impl Default for Lines {
    fn default() -> (r: Self)
        ensures
            r@ == Seq::<TextModel>::empty(),
    {
        Lines { lines: Vec::new() }
    }
}

/// The renderings of text lines on the options.
pub open spec fn text_renders(lines: Seq<TextModel>, o: crate::console::OptionsModel) -> Seq<Seq<SegView>> {
    lines.map_values(|t: TextModel| render_text_spec(t, o))
}

/// The measurement of text lines: the largest minimum and maximum; one cell for none.
pub open spec fn lines_measure_spec(lines: Seq<TextModel>) -> Measurement {
    if lines.len() == 0 {
        Measurement { minimum: 1, maximum: 1 }
    } else {
        union_all(lines.map_values(|t: TextModel| measure_text(t.plain)))
    }
}

impl Lines {
    /// Lines from texts.
    pub fn new(lines: Vec<Text>) -> (r: Self)
        ensures
            r@ == text_models(lines@),
    {
        Lines { lines }
    }

    /// No lines.
    pub fn empty() -> (r: Self)
        ensures
            r@ == Seq::<TextModel>::empty(),
    {
        Lines { lines: Vec::new() }
    }

    /// Add a line at the end.
    pub fn append(&mut self, line: Text)
        ensures
            final(self)@ == old(self)@.push(line@),
    {
        self.lines.push(line);
        assert(text_models(self.lines@) =~= text_models(old(self).lines@).push(line@));
    }

    /// Add lines at the end.
    pub fn extend(&mut self, lines: Vec<Text>)
        ensures
            final(self)@ == old(self)@ + text_models(lines@),
    {
        let mut more = lines;
        self.lines.append(&mut more);
        assert(text_models(self.lines@) =~= text_models(old(self).lines@) + text_models(lines@));
    }

    /// Remove and give back the last line.
    pub fn pop(&mut self) -> (r: Option<Text>)
        ensures
            old(self)@.len() == 0 ==> r is None && final(self)@ == old(self)@,
            old(self)@.len() > 0 ==> r is Some && r.unwrap()@ == old(self)@.last()
                && final(self)@ == old(self)@.drop_last(),
    {
        let r = self.lines.pop();
        assert(text_models(self.lines@) =~= if old(self).lines@.len() > 0 { text_models(old(self).lines@).drop_last() } else { text_models(old(self).lines@) });
        r
    }

    /// The number of lines.
    pub fn len(&self) -> (r: usize)
        ensures
            r == self@.len(),
    {
        self.lines.len()
    }

    /// Whether there are no lines.
    pub fn is_empty(&self) -> (r: bool)
        ensures
            r == (self@.len() == 0),
    {
        self.lines.len() == 0
    }

    /// The lines.
    pub fn lines(&self) -> (r: &[Text])
        ensures
            text_models(r@) == self@,
    {
        self.lines.as_slice()
    }

    /// A description: `Lines { len: .. }`.
    pub fn debug_string(&self) -> (r: String)
        ensures
            r@ == "Lines { len: "@ + crate::strs::decimal_spec(self@.len()) + " }"@,
    {
        let mut s = crate::strs::owned("Lines { len: ");
        crate::strs::push_str(&mut s, crate::strs::usize_to_string(self.lines.len()).as_str());
        crate::strs::push_str(&mut s, " }");
        s
    }
}

impl Renderable for Lines {
    open spec fn rendered(&self, o: crate::console::OptionsModel) -> Seq<crate::segment::SegView> {
        join_children(text_renders(self@, o), true)
    }

    open spec fn measured(&self, o: crate::console::OptionsModel) -> Measurement {
        lines_measure_spec(self@)
    }

    fn render(&self, console: &Console, options: &ConsoleOptions) -> (r: Vec<Segment>)
    {
        let mut out: Vec<Segment> = Vec::new();
        let ghost all = text_renders(self@, options@);
        let mut i: usize = 0;
        while i < self.lines.len()
            invariant
                i <= self.lines@.len(),
                all == text_renders(self@, options@),
                all.len() == self.lines@.len(),
                segs_view(out@) == join_children(all.take(i as int), true),
            decreases self.lines.len() - i,
        {
            let segs = self.lines[i].render(console, options);
            if i > 0 && !segments_end_with_newline(&out) {
                push_newline(&mut out);
            }
            push_all(&mut out, &segs);
            proof {
                assert(all.take(i + 1).drop_last() =~= all.take(i as int));
                assert(all.take(i + 1).last() == all[i as int]);
                assert(all[i as int] == render_text_spec(self.lines@[i as int]@, options@));
            }
            i = i + 1;
        }
        assert(all.take(i as int) =~= all);
        out
    }

    fn measure(&self, console: &Console, options: &ConsoleOptions) -> (r: Measurement)
    {
        if self.lines.len() == 0 {
            return Measurement::new(1, 1);
        }
        let ghost all = self@.map_values(|t: TextModel| measure_text(t.plain));
        let mut ms: Vec<Measurement> = Vec::new();
        let mut i: usize = 0;
        while i < self.lines.len()
            invariant
                i <= self.lines@.len(),
                all == self@.map_values(|t: TextModel| measure_text(t.plain)),
                all.len() == self.lines@.len(),
                ms@ == all.take(i as int),
            decreases self.lines.len() - i,
        {
            let m = self.lines[i].measure(console, options);
            ms.push(m);
            assert(ms@ =~= all.take(i + 1));
            i = i + 1;
        }
        assert(all.take(i as int) =~= all);
        union_measurements(&ms)
    }
}


/// Popping after an append gives back the appended line and leaves the lines as they
/// were before the append.
pub proof fn law_pop_after_append(lines: Seq<crate::text::TextModel>, line: crate::text::TextModel)
    ensures
        lines.push(line).len() > 0,
        lines.push(line).last() == line,
        lines.push(line).drop_last() == lines,
{
    assert(lines.push(line).drop_last() =~= lines);
}

} // verus!
