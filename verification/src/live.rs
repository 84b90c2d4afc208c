//! Live displays: their settings, and the stack of live displays a console shows,
//! with the cursor movements that redraw them.
use vstd::prelude::*;
use crate::Renderable;
use crate::console::{Console, ConsoleOptions, OptionsModel, lines_of_render};
use crate::segment::{Segment, SegView, ControlType, segs_view, lines_view, max_line_width};
use crate::style::Style;
use crate::live_render::{fit_lines, join_newlines, ellipsis_lines, ellipsis_text};
use crate::align::push_all;

verus! {

/// What a live display does with content taller than the terminal.
#[derive(Debug, Clone, Copy, PartialEq, Eq, Structural)]
pub enum VerticalOverflowMethod {
    /// Keep the lines that fit.
    Crop,
    /// Keep the lines that fit but one, then an ellipsis line.
    Ellipsis,
    /// Keep every line.
    Visible,
}

impl Default for VerticalOverflowMethod {
    fn default() -> (r: Self)
        ensures
            r == VerticalOverflowMethod::Ellipsis,
    {
        VerticalOverflowMethod::Ellipsis
    }
}


/// The live displays a console shows: a stack of ids (the first is the root, whose
/// overflow handling applies to the whole display), the displays held (id and overflow
/// handling, and beside them what each shows), and the shape of what was last drawn.
pub struct LiveManager {
    next_id: usize,
    stack: Vec<usize>,
    entries: Vec<(usize, VerticalOverflowMethod)>,
    renderables: Vec<Box<dyn Renderable>>,
    shape: Option<(usize, usize)>,
}

/// The state of the live displays.
pub struct LiveModel {
    /// The id the next display gets.
    pub next_id: usize,
    /// The ids shown, the root first.
    pub stack: Seq<usize>,
    /// The displays held, in the order started: id and overflow handling.
    pub entries: Seq<(usize, VerticalOverflowMethod)>,
    /// The shape (width, height) last drawn, while a display is shown.
    pub shape: Option<(usize, usize)>,
}

impl View for LiveManager {
    type V = LiveModel;

    closed spec fn view(&self) -> LiveModel {
        LiveModel {
            next_id: self.next_id,
            stack: self.stack@,
            entries: self.entries@,
            shape: self.shape,
        }
    }
}

/// The position of the display held under an id (the last one started with it).
pub open spec fn entry_index(e: Seq<(usize, VerticalOverflowMethod)>, id: usize) -> Option<int>
    decreases e.len(),
{
    if e.len() == 0 {
        None
    } else if e.last().0 == id {
        Some(e.len() - 1)
    } else {
        entry_index(e.drop_last(), id)
    }
}

/// What `entry_index` picks: a position holding the id with none after it, or none
/// when no position holds it.
pub proof fn lemma_entry_index(e: Seq<(usize, VerticalOverflowMethod)>, id: usize)
    ensures
        match entry_index(e, id) {
            Some(k) => 0 <= k < e.len() && e[k].0 == id && forall|j: int| k < j < e.len() ==> #[trigger] e[j].0 != id,
            None => forall|j: int| 0 <= j < e.len() ==> #[trigger] e[j].0 != id,
        },
    decreases e.len(),
{
    if e.len() > 0 {
        let p = e.drop_last();
        lemma_entry_index(p, id);
        assert forall|j: int| 0 <= j < p.len() implies #[trigger] p[j] == e[j] by {}
        if e.last().0 != id {
            match entry_index(p, id) {
                Some(k) => {
                    assert forall|j: int| k < j < e.len() implies #[trigger] e[j].0 != id by {
                        if j < p.len() {
                            assert(p[j] == e[j]);
                        }
                    }
                },
                None => {
                    assert forall|j: int| 0 <= j < e.len() implies #[trigger] e[j].0 != id by {
                        if j < p.len() {
                            assert(p[j] == e[j]);
                        }
                    }
                },
            }
        }
    }
}

/// The ids with one of them taken out.
pub open spec fn without_id(s: Seq<usize>, id: usize) -> Seq<usize>
    decreases s.len(),
{
    if s.len() == 0 {
        Seq::empty()
    } else {
        without_id(s.drop_last(), id) + (if s.last() == id { Seq::empty() } else { seq![s.last()] })
    }
}

/// A control segment.
pub open spec fn control_seg(c: ControlType) -> SegView {
    (Seq::empty(), None::<Style>, Some(c))
}

/// `n` moves one line up, each (when erasing) followed by a return and an erase of the
/// line.
pub open spec fn cursor_steps(n: nat, erase: bool) -> Seq<SegView>
    decreases n,
{
    if n == 0 {
        Seq::empty()
    } else {
        cursor_steps((n - 1) as nat, erase) + seq![control_seg(ControlType::CursorUp(1))]
            + (if erase { seq![control_seg(ControlType::CarriageReturn), control_seg(ControlType::EraseInLine(2))] } else { Seq::empty() })
    }
}

/// The controls that move the cursor to the top of a live display of a shape (and
/// erase its lines when asked): a return (and an erase), then a move up (and a return
/// and an erase) for each line but the first; nothing without a shape or lines.
pub open spec fn position_cursor_spec(shape: Option<(usize, usize)>, erase: bool) -> Seq<SegView> {
    match shape {
        None => Seq::empty(),
        Some((_, h)) => if h == 0 {
            Seq::empty()
        } else {
            seq![control_seg(ControlType::CarriageReturn)]
                + (if erase { seq![control_seg(ControlType::EraseInLine(2))] } else { Seq::empty() })
                + cursor_steps((h - 1) as nat, erase)
        },
    }
}

/// The controls that take the cursor back above a live display of a shape, erasing
/// each of its lines: a return, then a move up, a return and an erase per line;
/// nothing without a shape or lines.
pub open spec fn restore_cursor_spec(shape: Option<(usize, usize)>) -> Seq<SegView> {
    match shape {
        None => Seq::empty(),
        Some((_, h)) => if h == 0 {
            Seq::empty()
        } else {
            seq![control_seg(ControlType::CarriageReturn)] + cursor_steps(h as nat, true)
        },
    }
}

fn push_control(out: &mut Vec<Segment>, c: ControlType)
    ensures
        segs_view(final(out)@) == segs_view(old(out)@).push(control_seg(c)),
{
    let ghost b = segs_view(out@);
    out.push(Segment::control(c));
    assert(segs_view(out@) =~= b.push(control_seg(c)));
}

/// Push `n` cursor steps.
fn push_cursor_steps(out: &mut Vec<Segment>, n: usize, erase: bool)
    ensures
        segs_view(final(out)@) == segs_view(old(out)@) + cursor_steps(n as nat, erase),
{
    let ghost b = segs_view(out@);
    let mut k: usize = 0;
    while k < n
        invariant
            k <= n,
            segs_view(out@) =~= b + cursor_steps(k as nat, erase),
        decreases n - k,
    {
        push_control(out, ControlType::CursorUp(1));
        if erase {
            push_control(out, ControlType::CarriageReturn);
            push_control(out, ControlType::EraseInLine(2));
        }
        k = k + 1;
    }
}

impl LiveManager {
    /// What the display held under an id renders on options (nothing when no display
    /// is held under it).
    pub closed spec fn rendered_of(&self, id: usize, o: OptionsModel) -> Seq<SegView> {
        match entry_index(self.entries@, id) {
            Some(k) => if k < self.renderables@.len() { self.renderables@[k].rendered(o) } else { Seq::empty() },
            None => Seq::empty(),
        }
    }

    /// Each display held has what it shows (one renderable per entry), and every id
    /// held or shown was given out before the next one.
    pub closed spec fn wf(&self) -> bool {
        &&& self.renderables@.len() == self.entries@.len()
        &&& forall|k: int| 0 <= k < self.entries@.len() ==> #[trigger] self.entries@[k].0 < self.next_id
        &&& forall|k: int| 0 <= k < self.stack@.len() ==> #[trigger] self.stack@[k] < self.next_id
    }

    /// Every id held or shown is smaller than the next id to be given out.
    pub proof fn lemma_ids_below_next(&self)
        requires
            self.wf(),
        ensures
            forall|k: int| 0 <= k < self@.entries.len() ==> #[trigger] self@.entries[k].0 < self@.next_id,
            forall|k: int| 0 <= k < self@.stack.len() ==> #[trigger] self@.stack[k] < self@.next_id,
    {
    }

    /// The id the next live display gets.
    pub fn next_live_id(&self) -> (r: usize)
        ensures
            r == self@.next_id,
    {
        self.next_id
    }

    /// How many live displays are shown.
    pub fn live_depth(&self) -> (r: usize)
        ensures
            r == self@.stack.len(),
    {
        self.stack.len()
    }

    /// The shape of the live display last drawn, while one is shown.
    pub fn live_shape(&self) -> (r: Option<(usize, usize)>)
        ensures
            r == self@.shape,
    {
        self.shape
    }

    /// No live displays.
    pub fn new() -> (r: Self)
        ensures
            r@ == (LiveModel { next_id: 0, stack: Seq::empty(), entries: Seq::empty(), shape: None }),
            r.wf(),
    {
        LiveManager { next_id: 0, stack: Vec::new(), entries: Vec::new(), renderables: Vec::new(), shape: None }
    }

    /// The position of the display held under an id.
    fn find(&self, id: usize) -> (r: Option<usize>)
        ensures
            match r {
                Some(k) => entry_index(self@.entries, id) == Some(k as int) && k < self@.entries.len(),
                None => entry_index(self@.entries, id) is None,
            },
    {
        let mut i: usize = self.entries.len();
        while i > 0
            invariant
                i <= self.entries@.len(),
                forall|j: int| i <= j < self.entries@.len() ==> #[trigger] self.entries@[j].0 != id,
            decreases i,
        {
            i = i - 1;
            if self.entries[i].0 == id {
                proof {
                    lemma_entry_index(self@.entries, id);
                    match entry_index(self@.entries, id) {
                        Some(k) => {
                            if k < i {
                                assert(self@.entries[i as int].0 == id);
                            }
                        },
                        None => {
                            assert(self@.entries[i as int].0 == id);
                        },
                    }
                }
                return Some(i);
            }
        }
        proof {
            lemma_entry_index(self@.entries, id);
            if let Some(k) = entry_index(self@.entries, id) {
                assert(self@.entries[k].0 == id);
            }
        }
        None
    }

    /// Start a live display: it gets the next id and goes on top of the stack; the
    /// id is returned, and whether the display is the root (the stack was empty).
    pub fn live_start(&mut self, renderable: Box<dyn Renderable>, vertical_overflow: VerticalOverflowMethod) -> (r: (usize, bool))
        requires
            old(self).wf(),
            old(self)@.next_id < usize::MAX,
        ensures
            final(self).wf(),
            r.0 == old(self)@.next_id,
            r.1 == (old(self)@.stack.len() == 0),
            final(self)@ == (LiveModel {
                next_id: (old(self)@.next_id + 1) as usize,
                stack: old(self)@.stack.push(r.0),
                entries: old(self)@.entries.push((r.0, vertical_overflow)),
                shape: old(self)@.shape,
            }),
            forall|j: usize, o: OptionsModel| j != r.0 ==> #[trigger] final(self).rendered_of(j, o) == old(self).rendered_of(j, o),
            entry_index(final(self)@.entries, r.0) == Some(old(self)@.entries.len() as int),
            forall|k: int| 0 <= k < old(self)@.entries.len() ==> #[trigger] old(self)@.entries[k].0 < r.0,
    {
        let is_root = self.stack.len() == 0;
        let id = self.next_id;
        self.next_id = self.next_id + 1;
        let ghost old_entries = self.entries@;
        let ghost old_r = self.renderables@;
        self.entries.push((id, vertical_overflow));
        self.renderables.push(renderable);
        self.stack.push(id);
        proof {
            let n = old_r.len() as int;
            vstd::seq::axiom_seq_push_len(old_r, renderable);
            vstd::seq::axiom_seq_push_index_same(old_r, renderable, n);
            assert forall|m: int| 0 <= m < n implies #[trigger] self.renderables@[m] == old_r[m] by {
                vstd::seq::axiom_seq_push_index_different(old_r, renderable, m);
            }
            assert(self.entries@.drop_last() =~= old_entries);
            assert(entry_index(self.entries@, id) == Some(n));
            assert forall|j: usize, o: OptionsModel| j != id implies #[trigger] self.rendered_of(j, o) == old(self).rendered_of(j, o) by {
                lemma_entry_index(old_entries, j);
                assert(entry_index(self.entries@, j) == entry_index(old_entries, j));
            }
        }
        (id, is_root)
    }

    /// Change what the display held under an id shows (nothing changes when no
    /// display is held under it).
    pub fn live_update(&mut self, id: usize, renderable: Box<dyn Renderable>)
        requires
            old(self).wf(),
        ensures
            final(self).wf(),
            final(self)@ == old(self)@,
            forall|j: usize, o: OptionsModel| (j != id || entry_index(old(self)@.entries, id) is None)
                ==> #[trigger] final(self).rendered_of(j, o) == old(self).rendered_of(j, o),
    {
        match self.find(id) {
            Some(k) => {
                let ghost old_r = self.renderables@;
                self.renderables.set(k, renderable);
                proof {
                    vstd::seq::axiom_seq_update_len(old_r, k as int, renderable);
                    assert forall|m: int| 0 <= m < old_r.len() && m != k implies #[trigger] self.renderables@[m] == old_r[m] by {
                        vstd::seq::axiom_seq_update_different(old_r, m, k as int, renderable);
                    }
                    lemma_entry_index(self.entries@, id);
                    assert forall|j: usize, o: OptionsModel| j != id implies #[trigger] self.rendered_of(j, o) == old(self).rendered_of(j, o) by {
                        lemma_entry_index(self.entries@, j);
                    }
                }
            },
            None => {},
        }
    }

    /// Change how the display held under an id handles overflow (nothing changes when
    /// no display is held under it).
    pub fn live_set_vertical_overflow(&mut self, id: usize, vertical_overflow: VerticalOverflowMethod)
        requires
            old(self).wf(),
        ensures
            final(self).wf(),
            final(self)@ == (LiveModel {
                entries: match entry_index(old(self)@.entries, id) {
                    Some(k) => old(self)@.entries.update(k, (id, vertical_overflow)),
                    None => old(self)@.entries,
                },
                ..old(self)@
            }),
            forall|j: usize, o: OptionsModel| #[trigger] final(self).rendered_of(j, o) == old(self).rendered_of(j, o),
    {
        match self.find(id) {
            Some(k) => {
                let ghost old_entries = self.entries@;
                self.entries.set(k, (id, vertical_overflow));
                proof {
                    lemma_entry_index(old_entries, id);
                    assert forall|j: usize, o: OptionsModel| #[trigger] self.rendered_of(j, o) == old(self).rendered_of(j, o) by {
                        let ne = self.entries@;
                        lemma_entry_index(old_entries, j);
                        lemma_entry_index(ne, j);
                        assert(forall|m: int| 0 <= m < old_entries.len() ==> #[trigger] ne[m].0 == old_entries[m].0);
                        if entry_index(old_entries, j) != entry_index(ne, j) {
                            match entry_index(old_entries, j) {
                                Some(a) => {
                                    match entry_index(ne, j) {
                                        Some(b) => {
                                            if a < b {
                                                assert(old_entries[b].0 == j);
                                            } else {
                                                assert(ne[a].0 == j);
                                            }
                                        },
                                        None => assert(ne[a].0 == j),
                                    }
                                },
                                None => {
                                    let b = entry_index(ne, j)->0;
                                    assert(old_entries[b].0 == j);
                                },
                            }
                        }
                    }
                }
            },
            None => {},
        }
    }

    /// Stop the display held under an id: its id leaves the stack and the display is
    /// handed back; with the stack empty, no shape is kept.
    pub fn live_stop(&mut self, id: usize) -> (r: Option<Box<dyn Renderable>>)
        requires
            old(self).wf(),
        ensures
            final(self).wf(),
            final(self)@.next_id == old(self)@.next_id,
            final(self)@.stack == without_id(old(self)@.stack, id),
            final(self)@.entries == match entry_index(old(self)@.entries, id) {
                Some(k) => old(self)@.entries.remove(k),
                None => old(self)@.entries,
            },
            final(self)@.shape == if final(self)@.stack.len() == 0 { None } else { old(self)@.shape },
            r is Some <==> entry_index(old(self)@.entries, id) is Some,
            r matches Some(b) ==> forall|o: OptionsModel| #[trigger] b.rendered(o) == old(self).rendered_of(id, o),
    {
        let mut kept: Vec<usize> = Vec::new();
        let mut i: usize = 0;
        while i < self.stack.len()
            invariant
                i <= self.stack@.len(),
                kept@ == without_id(self.stack@.take(i as int), id),
                forall|k: int| 0 <= k < self.stack@.len() ==> #[trigger] self.stack@[k] < self.next_id,
                forall|k: int| 0 <= k < kept@.len() ==> #[trigger] kept@[k] < self.next_id,
            decreases self.stack.len() - i,
        {
            assert(self.stack@.take(i + 1).drop_last() =~= self.stack@.take(i as int));
            if self.stack[i] != id {
                kept.push(self.stack[i]);
            }
            i = i + 1;
        }
        assert(self.stack@.take(i as int) =~= self.stack@);
        self.stack = kept;
        let r = match self.find(id) {
            Some(k) => {
                let ghost old_entries = self.entries@;
                let ghost old_r = self.renderables@;
                self.entries.remove(k);
                let b = self.renderables.remove(k);
                proof {
                    old_entries.remove_ensures(k as int);
                    old_r.remove_ensures(k as int);
                }
                Some(b)
            },
            None => None,
        };
        if self.stack.len() == 0 {
            self.shape = None;
        }
        r
    }

    /// Stop every display.
    pub fn live_clear(&mut self)
        ensures
            final(self).wf(),
            final(self)@ == (LiveModel { next_id: old(self)@.next_id, stack: Seq::empty(), entries: Seq::empty(), shape: None }),
    {
        self.stack = Vec::new();
        self.entries = Vec::new();
        self.renderables = Vec::new();
        self.shape = None;
    }


    /// The lines of the displays on the stack from the bottom up to the given ids:
    /// each display held is rendered on the options (no style, no padding) and split
    /// into lines as wide as the options' maximum width.
    pub open spec fn stacked_lines(&self, ids: Seq<usize>, o: OptionsModel) -> Seq<Seq<SegView>>
        decreases ids.len(),
    {
        if ids.len() == 0 {
            Seq::empty()
        } else {
            self.stacked_lines(ids.drop_last(), o) + (if entry_index(self@.entries, ids.last()) is Some {
                lines_of_render(self.rendered_of(ids.last(), o), None, o.max_width as nat, false, false)
            } else {
                Seq::empty()
            })
        }
    }

    /// Whether there is a root display: the stack is not empty and a display is held
    /// under its first id.
    pub open spec fn has_root(&self) -> bool {
        self@.stack.len() > 0 && entry_index(self@.entries, self@.stack[0]) is Some
    }

    /// The lines drawn for the displays: the stacked lines, fitted to the terminal's
    /// height (when it has one) by the root's overflow handling.
    pub open spec fn live_frame(&self, o: OptionsModel) -> Seq<Seq<SegView>> {
        let lines = self.stacked_lines(self@.stack, o);
        let k = entry_index(self@.entries, self@.stack[0])->0;
        if o.size.1 > 0 {
            fit_lines(lines, o.size.1 as nat, self@.entries[k].1, ellipsis_lines(o))
        } else {
            lines
        }
    }

    /// Render the displays for drawing: with no root display, nothing (and no full
    /// redraw); otherwise the lines of `live_frame` with a newline between each two,
    /// for a full redraw, and the shape of those lines is kept.
    pub fn render_live_segments(&mut self, options: &ConsoleOptions) -> (r: (Vec<Segment>, bool))
        requires
            old(self).wf(),
        ensures
            final(self).wf(),
            forall|j: usize, o: OptionsModel| #[trigger] final(self).rendered_of(j, o) == old(self).rendered_of(j, o),
            !old(self).has_root() ==> r.0@.len() == 0 && !r.1 && final(self)@ == old(self)@,
            old(self).has_root() ==> r.1 && segs_view(r.0@) == join_newlines(old(self).live_frame(options@))
                && final(self)@ == (LiveModel {
                    shape: Some((
                        crate::wrap::satw(max_line_width(old(self).live_frame(options@))) as usize,
                        old(self).live_frame(options@).len() as usize,
                    )),
                    ..old(self)@
                }),
    {
        if self.stack.len() == 0 {
            return (Vec::new(), false);
        }
        let root = match self.find(self.stack[0]) {
            Some(k) => k,
            None => {
                return (Vec::new(), false);
            },
        };
        let method = self.entries[root].1;
        let temp = Console::with_options(options.copy());
        let mut lines: Vec<Vec<Segment>> = Vec::new();
        let mut i: usize = 0;
        while i < self.stack.len()
            invariant
                i <= self.stack@.len(),
                lines_view(lines@) == self.stacked_lines(self@.stack.take(i as int), options@),
            decreases self.stack.len() - i,
        {
            let ghost b = lines_view(lines@);
            assert(self@.stack.take(i + 1).drop_last() =~= self@.stack.take(i as int));
            assert(self@.stack.take(i + 1).last() == self@.stack[i as int]);
            match self.find(self.stack[i]) {
                Some(k) => {
                    let segs = if k < self.renderables.len() {
                        self.renderables[k].render(&temp, options)
                    } else {
                        Vec::new()
                    };
                    assert(segs_view(segs@) == self.rendered_of(self.stack@[i as int], options@));
                    let mut more = crate::console::lines_from_render(segs, None, options.max_width, false, false);
                    let ghost m = lines_view(more@);
                    lines.append(&mut more);
                    assert(lines_view(lines@) =~= b + m);
                },
                None => {
                    assert(b + Seq::<Seq<SegView>>::empty() =~= b);
                },
            }
            i = i + 1;
        }
        assert(self@.stack.take(i as int) =~= self@.stack);
        let ghost lv = lines_view(lines@);
        let max_height = options.size.1;
        if max_height > 0 && lines.len() > max_height {
            match method {
                VerticalOverflowMethod::Crop => {
                    lines.truncate(max_height);
                    assert(lines_view(lines@) =~= lv.take(max_height as int));
                },
                VerticalOverflowMethod::Ellipsis => {
                    let keep: usize = max_height - 1;
                    lines.truncate(keep);
                    assert(lines_view(lines@) =~= lv.take(keep as int));
                    let et = ellipsis_text(options);
                    let esegs = et.render(&temp, options);
                    let mut elines = Segment::split_and_crop_lines(esegs, options.max_width, None, false, false);
                    assert(lines_view(elines@) == ellipsis_lines(options@));
                    if elines.len() > 0 {
                        let ghost b = lines_view(lines@);
                        let ghost first = lines_view(elines@)[0];
                        let _rest = elines.split_off(1);
                        let f = elines.pop().unwrap();
                        lines.push(f);
                        assert(lines_view(lines@) =~= b + seq![first]);
                    }
                },
                VerticalOverflowMethod::Visible => {},
            }
        }
        let ghost fitted = lines_view(lines@);
        assert(fitted == old(self).live_frame(options@));
        let shape = Segment::get_shape(&lines);
        self.shape = Some(shape);
        let mut out: Vec<Segment> = Vec::new();
        let mut i: usize = 0;
        while i < lines.len()
            invariant
                i <= lines@.len(),
                fitted == lines_view(lines@),
                segs_view(out@) == join_newlines(fitted.take(i as int)),
            decreases lines.len() - i,
        {
            let ghost b = segs_view(out@);
            if i > 0 {
                out.push(Segment::line());
                assert(segs_view(out@) =~= b + seq![(seq!['\n'], None::<Style>, None::<ControlType>)]);
            }
            push_all(&mut out, &lines[i]);
            proof {
                assert(fitted.take(i + 1).drop_last() =~= fitted.take(i as int));
                assert(fitted.take(i + 1).last() == fitted[i as int]);
                if i == 0 {
                    assert(fitted.take(0) =~= Seq::<Seq<SegView>>::empty());
                }
                assert(segs_view(out@) =~= join_newlines(fitted.take(i + 1)));
            }
            i = i + 1;
        }
        assert(fitted.take(i as int) =~= fitted);
        (out, true)
    }

    /// The controls that move the cursor to the top of a display of a shape (erasing
    /// its lines when asked).
    pub fn live_position_cursor_for_shape(shape: Option<(usize, usize)>, erase: bool) -> (r: Vec<Segment>)
        ensures
            segs_view(r@) == position_cursor_spec(shape, erase),
    {
        let mut out: Vec<Segment> = Vec::new();
        assert(segs_view(out@) =~= Seq::<SegView>::empty());
        match shape {
            None => {},
            Some((_, h)) => {
                if h > 0 {
                    push_control(&mut out, ControlType::CarriageReturn);
                    if erase {
                        push_control(&mut out, ControlType::EraseInLine(2));
                    }
                    push_cursor_steps(&mut out, h - 1, erase);
                }
            },
        }
        out
    }

    /// The controls that take the cursor back above the display last drawn, erasing
    /// its lines.
    pub fn live_restore_cursor(&self) -> (r: Vec<Segment>)
        ensures
            segs_view(r@) == restore_cursor_spec(self@.shape),
    {
        let mut out: Vec<Segment> = Vec::new();
        assert(segs_view(out@) =~= Seq::<SegView>::empty());
        match self.shape {
            None => {},
            Some((_, h)) => {
                if h > 0 {
                    push_control(&mut out, ControlType::CarriageReturn);
                    push_cursor_steps(&mut out, h, true);
                }
            },
        }
        out
    }
}


/// What stopping a live display does, step by step.
#[derive(Debug, Clone, Copy, PartialEq, Eq, Structural)]
pub struct LiveStopPlan {
    /// Print what was to be shown once (a display never drawn live).
    pub print_pending: bool,
    /// Take the display off the stack (a nested display).
    pub stop_nested: bool,
    /// Print the stopped nested display once.
    pub print_stopped: bool,
    /// Redraw so that the stopped nested display leaves the screen.
    pub refresh_after_stop: bool,
    /// Draw the root display one last time in full (its overflow made visible).
    pub final_redraw: bool,
    /// Take the drawn display off the screen afterwards (the cursor moved back up).
    pub restore_cursor: bool,
    /// Clear the stack of displays.
    pub clear: bool,
    /// End with a newline.
    pub final_newline: bool,
    /// Leave the alternate screen.
    pub leave_alt_screen: bool,
}

/// The plan for stopping a display: `live` when it was drawn live (it has an id),
/// `is_root` when it is the root, `transient` when it leaves no trace, `terminal` when
/// the console is a terminal, `alt_screen` when it was drawn on the alternate screen.
pub open spec fn live_stop_plan_spec(live: bool, is_root: bool, transient: bool, terminal: bool, alt_screen: bool) -> LiveStopPlan {
    let none = LiveStopPlan {
        print_pending: false, stop_nested: false, print_stopped: false, refresh_after_stop: false,
        final_redraw: false, restore_cursor: false, clear: false, final_newline: false, leave_alt_screen: false,
    };
    if !live {
        LiveStopPlan { print_pending: !transient, ..none }
    } else if !is_root {
        LiveStopPlan { stop_nested: true, print_stopped: !transient, refresh_after_stop: transient && terminal, ..none }
    } else {
        LiveStopPlan {
            final_redraw: terminal && !alt_screen,
            restore_cursor: terminal && transient && !alt_screen,
            clear: true,
            final_newline: terminal && !alt_screen,
            leave_alt_screen: alt_screen,
            ..none
        }
    }
}

/// The plan for stopping a display (see `live_stop_plan_spec`).
pub fn live_stop_plan(live: bool, is_root: bool, transient: bool, terminal: bool, alt_screen: bool) -> (r: LiveStopPlan)
    ensures
        r == live_stop_plan_spec(live, is_root, transient, terminal, alt_screen),
{
    let none = LiveStopPlan {
        print_pending: false, stop_nested: false, print_stopped: false, refresh_after_stop: false,
        final_redraw: false, restore_cursor: false, clear: false, final_newline: false, leave_alt_screen: false,
    };
    if !live {
        LiveStopPlan { print_pending: !transient, ..none }
    } else if !is_root {
        LiveStopPlan { stop_nested: true, print_stopped: !transient, refresh_after_stop: transient && terminal, ..none }
    } else {
        LiveStopPlan {
            final_redraw: terminal && !alt_screen,
            restore_cursor: terminal && transient && !alt_screen,
            clear: true,
            final_newline: terminal && !alt_screen,
            leave_alt_screen: alt_screen,
            ..none
        }
    }
}
} // verus!
