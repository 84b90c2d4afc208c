//! Control: terminal control codes as a renderable.
use vstd::prelude::*;
use crate::Renderable;
use crate::console::{Console, ConsoleOptions};
use crate::measure::Measurement;
use crate::segment::{ControlType, Segment, SegView, segs_view};
use crate::strs::{push_str, str_chars};

verus! {

broadcast use vstd::string::group_string_axioms;

/// A sequence of terminal control codes.
#[derive(Debug, Clone)]
pub struct Control {
    controls: Vec<ControlType>,
}

impl View for Control {
    type V = Seq<ControlType>;

    closed spec fn view(&self) -> Seq<ControlType> {
        self.controls@
    }
}

/// The segments of control codes: one empty control segment per code.
pub open spec fn control_segments(cs: Seq<ControlType>) -> Seq<SegView> {
    cs.map_values(|c: ControlType| (Seq::<char>::empty(), None::<crate::style::Style>, Some(c)))
}

fn one(c: ControlType) -> (r: Control)
    ensures
        r@ == seq![c],
{
    let mut v: Vec<ControlType> = Vec::new();
    v.push(c);
    assert(v@ =~= seq![c]);
    Control { controls: v }
}

fn two(a: ControlType, b: ControlType) -> (r: Control)
    ensures
        r@ == seq![a, b],
{
    let mut v: Vec<ControlType> = Vec::new();
    v.push(a);
    v.push(b);
    assert(v@ =~= seq![a, b]);
    Control { controls: v }
}

impl Control {
    /// No control codes.
    pub fn new() -> (r: Self)
        ensures
            r@ == Seq::<ControlType>::empty(),
    {
        Control { controls: Vec::new() }
    }

    /// Move the cursor home.
    pub fn home() -> (r: Self)
        ensures
            r@ == seq![ControlType::Home],
    {
        one(ControlType::Home)
    }

    /// Move the cursor to the start of the line.
    pub fn carriage_return() -> (r: Self)
        ensures
            r@ == seq![ControlType::CarriageReturn],
    {
        one(ControlType::CarriageReturn)
    }

    /// Erase in the line.
    pub fn erase_in_line(mode: u8) -> (r: Self)
        ensures
            r@ == seq![ControlType::EraseInLine(mode)],
    {
        one(ControlType::EraseInLine(mode))
    }

    /// Move the cursor up `n` lines.
    pub fn cursor_up(n: u16) -> (r: Self)
        ensures
            r@ == seq![ControlType::CursorUp(n)],
    {
        one(ControlType::CursorUp(n))
    }

    /// Move the cursor to a position.
    pub fn move_to(x: u16, y: u16) -> (r: Self)
        ensures
            r@ == seq![ControlType::MoveTo { x, y }],
    {
        one(ControlType::MoveTo { x, y })
    }

    /// Ring the bell.
    pub fn bell() -> (r: Self)
        ensures
            r@ == seq![ControlType::Bell],
    {
        one(ControlType::Bell)
    }

    /// Clear the screen.
    pub fn clear() -> (r: Self)
        ensures
            r@ == seq![ControlType::Clear],
    {
        one(ControlType::Clear)
    }

    /// Show or hide the cursor.
    pub fn show_cursor(show: bool) -> (r: Self)
        ensures
            r@ == seq![if show { ControlType::ShowCursor } else { ControlType::HideCursor }],
    {
        one(if show { ControlType::ShowCursor } else { ControlType::HideCursor })
    }

    /// Switch to the alternate screen (and home the cursor) or back.
    pub fn alt_screen(enable: bool) -> (r: Self)
        ensures
            enable ==> r@ == seq![ControlType::EnableAltScreen, ControlType::Home],
            !enable ==> r@ == seq![ControlType::DisableAltScreen],
    {
        if enable {
            two(ControlType::EnableAltScreen, ControlType::Home)
        } else {
            one(ControlType::DisableAltScreen)
        }
    }

    /// Set the window title (the code carries no text, so the title is not kept).
    pub fn title(_title: &str) -> (r: Self)
        ensures
            r@ == seq![ControlType::SetTitle],
    {
        one(ControlType::SetTitle)
    }

    /// Append control codes.
    pub fn extend(&mut self, controls: Vec<ControlType>)
        ensures
            final(self)@ == old(self)@ + controls@,
    {
        let mut c = controls;
        self.controls.append(&mut c);
    }

    /// Append one control code.
    pub fn push(&mut self, control: ControlType)
        ensures
            final(self)@ == old(self)@.push(control),
    {
        self.controls.push(control);
    }

    /// Whether there are no control codes.
    pub fn is_empty(&self) -> (r: bool)
        ensures
            r == (self@.len() == 0),
    {
        self.controls.len() == 0
    }

    /// The control codes as segments.
    pub fn into_segments(self) -> (r: Vec<Segment>)
        ensures
            segs_view(r@) == control_segments(self@),
    {
        self.segments()
    }

    /// The control codes as segments.
    pub fn segments(&self) -> (r: Vec<Segment>)
        ensures
            segs_view(r@) == control_segments(self@),
    {
        let mut out: Vec<Segment> = Vec::new();
        let mut i: usize = 0;
        while i < self.controls.len()
            invariant
                i <= self.controls.len(),
                segs_view(out@) =~= control_segments(self@.take(i as int)),
            decreases self.controls.len() - i,
        {
            let ghost ob = segs_view(out@);
            out.push(Segment::control(self.controls[i]));
            assert(segs_view(out@) =~= ob.push((Seq::<char>::empty(), None::<crate::style::Style>, Some(self@[i as int]))));
            assert(control_segments(self@.take(i + 1)) =~= control_segments(self@.take(i as int)).push((Seq::<char>::empty(), None::<crate::style::Style>, Some(self@[i as int]))));
            i = i + 1;
        }
        assert(self@.take(i as int) =~= self@);
        out
    }
}

impl Default for Control {
    fn default() -> (r: Self)
        ensures
            r@ == Seq::<ControlType>::empty(),
    {
        Control::new()
    }
}

impl Renderable for Control {
    open spec fn rendered(&self, o: crate::console::OptionsModel) -> Seq<crate::segment::SegView> {
        control_segments(self@)
    }

    open spec fn measured(&self, o: crate::console::OptionsModel) -> Measurement {
        Measurement { minimum: 0, maximum: 0 }
    }

    fn render(&self, console: &Console, options: &ConsoleOptions) -> (r: Vec<Segment>)
    {
        self.segments()
    }

    fn measure(&self, console: &Console, options: &ConsoleOptions) -> (r: Measurement)
    {
        Measurement::new(0, 0)
    }
}

/// Whether a character is a control code that is stripped or escaped: bell, backspace,
/// vertical tab, form feed, carriage return.
pub open spec fn is_strip_code(c: char) -> bool {
    c == '\x07' || c == '\x08' || c == '\x0b' || c == '\x0c' || c == '\r'
}

/// The escaped form of a control code.
pub open spec fn escape_of(c: char) -> Seq<char> {
    if c == '\x07' {
        seq!['\\', 'a']
    } else if c == '\x08' {
        seq!['\\', 'b']
    } else if c == '\x0b' {
        seq!['\\', 'v']
    } else if c == '\x0c' {
        seq!['\\', 'f']
    } else if c == '\r' {
        seq!['\\', 'r']
    } else {
        seq![c]
    }
}

/// Text with the control codes removed.
pub open spec fn strip_spec(s: Seq<char>) -> Seq<char>
    decreases s.len(),
{
    if s.len() == 0 {
        Seq::empty()
    } else {
        strip_spec(s.drop_last()) + (if is_strip_code(s.last()) { Seq::empty() } else { seq![s.last()] })
    }
}

/// Text with each control code replaced by its escape.
pub open spec fn escape_spec(s: Seq<char>) -> Seq<char>
    decreases s.len(),
{
    if s.len() == 0 {
        Seq::empty()
    } else {
        escape_spec(s.drop_last()) + escape_of(s.last())
    }
}

/// Remove bell, backspace, vertical tab, form feed and carriage return from text.
pub fn strip_control_codes(text: &str) -> (r: String)
    ensures
        r@ == strip_spec(text@),
{
    let cs = str_chars(text);
    let mut out = String::new();
    let mut i: usize = 0;
    while i < cs.len()
        invariant
            i <= cs.len(),
            cs@ == text@,
            out@ == strip_spec(cs@.take(i as int)),
        decreases cs.len() - i,
    {
        let c = cs[i];
        let ghost before = out@;
        proof {
            assert(cs@.take(i + 1).drop_last() =~= cs@.take(i as int));
            assert(cs@.take(i + 1).last() == c);
        }
        if !(c == '\x07' || c == '\x08' || c == '\x0b' || c == '\x0c' || c == '\r') {
            out.push(c);
            assert(out@ =~= before + seq![c]);
        } else {
            assert(out@ =~= before + Seq::<char>::empty());
        }
        i = i + 1;
    }
    assert(cs@.take(i as int) =~= cs@);
    out
}

/// Replace bell, backspace, vertical tab, form feed and carriage return in text by
/// their escapes `\a`, `\b`, `\v`, `\f`, `\r`.
pub fn escape_control_codes(text: &str) -> (r: String)
    ensures
        r@ == escape_spec(text@),
{
    let cs = str_chars(text);
    let mut out = String::new();
    let mut i: usize = 0;
    while i < cs.len()
        invariant
            i <= cs.len(),
            cs@ == text@,
            out@ == escape_spec(cs@.take(i as int)),
        decreases cs.len() - i,
    {
        let c = cs[i];
        let ghost before = out@;
        proof {
            assert(cs@.take(i + 1).drop_last() =~= cs@.take(i as int));
            assert(cs@.take(i + 1).last() == c);
        }
        if c == '\x07' {
            out.push('\\');
            out.push('a');
        } else if c == '\x08' {
            out.push('\\');
            out.push('b');
        } else if c == '\x0b' {
            out.push('\\');
            out.push('v');
        } else if c == '\x0c' {
            out.push('\\');
            out.push('f');
        } else if c == '\r' {
            out.push('\\');
            out.push('r');
        } else {
            out.push(c);
        }
        assert(out@ =~= before + escape_of(c));
        i = i + 1;
    }
    assert(cs@.take(i as int) =~= cs@);
    out
}


/// Stripping leaves no control code behind, and stripping again changes nothing.
pub proof fn law_strip_idempotent(s: Seq<char>)
    ensures
        forall|i: int| 0 <= i < strip_spec(s).len() ==> !is_strip_code(#[trigger] strip_spec(s)[i]),
        strip_spec(strip_spec(s)) == strip_spec(s),
    decreases s.len(),
{
    if s.len() > 0 {
        law_strip_idempotent(s.drop_last());
        let p = strip_spec(s.drop_last());
        if is_strip_code(s.last()) {
            assert(strip_spec(s) =~= p);
        } else {
            let q = p + seq![s.last()];
            assert(strip_spec(s) =~= q);
            assert(q.drop_last() =~= p);
            assert(strip_spec(q) =~= strip_spec(p) + seq![s.last()]);
        }
    }
}

/// Escaping leaves no control code behind.
pub proof fn law_escape_removes_codes(s: Seq<char>)
    ensures
        forall|i: int| 0 <= i < escape_spec(s).len() ==> !is_strip_code(#[trigger] escape_spec(s)[i]),
    decreases s.len(),
{
    if s.len() > 0 {
        law_escape_removes_codes(s.drop_last());
        let p = escape_spec(s.drop_last());
        let e = escape_of(s.last());
        assert(escape_spec(s) =~= p + e);
        assert forall|i: int| 0 <= i < escape_spec(s).len() implies !is_strip_code(#[trigger] escape_spec(s)[i]) by {
            if i >= p.len() {
                assert(escape_spec(s)[i] == e[i - p.len()]);
            } else {
                assert(escape_spec(s)[i] == p[i]);
            }
        }
    }
}


/// Text without control codes is left as it is by stripping and by escaping.
proof fn lemma_code_free_unchanged(s: Seq<char>)
    requires
        forall|i: int| 0 <= i < s.len() ==> !is_strip_code(#[trigger] s[i]),
    ensures
        strip_spec(s) == s,
        escape_spec(s) == s,
    decreases s.len(),
{
    if s.len() > 0 {
        let p = s.drop_last();
        assert forall|i: int| 0 <= i < p.len() implies !is_strip_code(#[trigger] p[i]) by {
            assert(p[i] == s[i]);
        }
        lemma_code_free_unchanged(p);
        assert(!is_strip_code(s[s.len() - 1]));
        assert(strip_spec(s) =~= s);
        assert(escape_spec(s) =~= s);
    }
}

/// Escaping never shortens text, and lengthens it when there is a control code in it;
/// stripping never lengthens it, and shortens it when there is one.
proof fn lemma_code_lengths(s: Seq<char>)
    ensures
        escape_spec(s).len() >= s.len(),
        strip_spec(s).len() <= s.len(),
        (exists|i: int| 0 <= i < s.len() && is_strip_code(#[trigger] s[i])) ==> escape_spec(s).len() > s.len() && strip_spec(s).len() < s.len(),
    decreases s.len(),
{
    if s.len() > 0 {
        let p = s.drop_last();
        lemma_code_lengths(p);
        if exists|i: int| 0 <= i < s.len() && is_strip_code(#[trigger] s[i]) {
            let i = choose|i: int| 0 <= i < s.len() && is_strip_code(#[trigger] s[i]);
            if i < s.len() - 1 {
                assert(p[i] == s[i]);
                assert(exists|j: int| 0 <= j < p.len() && is_strip_code(#[trigger] p[j]));
            }
        }
    }
}

/// Escaped text has nothing left to strip: stripping escaped text gives it back
/// unchanged. And text is left as it is by escaping exactly when it is left as it is by
/// stripping (exactly when it holds no control code).
pub proof fn law_strip_after_escape(s: Seq<char>)
    ensures
        strip_spec(escape_spec(s)) == escape_spec(s),
        (escape_spec(s) == s) <==> (strip_spec(s) == s),
{
    law_escape_removes_codes(s);
    lemma_code_free_unchanged(escape_spec(s));
    lemma_code_lengths(s);
    if forall|i: int| 0 <= i < s.len() ==> !is_strip_code(#[trigger] s[i]) {
        lemma_code_free_unchanged(s);
    }
}

} // verus!
