//! Streaming ANSI output of segments: only the attributes that change between two
//! segments are switched, so neighbouring segments share their escape sequences.
use vstd::prelude::*;
use crate::color::{ColorSystem, SimpleColor, views};
use crate::segment::{ControlType, Segment, SegView, segs_view};
use crate::style::{Style, code_if, color_codes, join_codes, join_strings, push_code_if, color_code_list};
use crate::strs::{decimal_spec, push_str, u64_to_string};

verus! {

broadcast use vstd::string::group_string_axioms;

/// The terminal's text attributes as the output stream leaves them.
#[derive(Debug, Clone, Copy, PartialEq, Eq, Structural)]
pub struct StyleState {
    /// Foreground color.
    pub fg: SimpleColor,
    /// Background color.
    pub bg: SimpleColor,
    /// Bold.
    pub bold: bool,
    /// Dim.
    pub dim: bool,
    /// Italic.
    pub italic: bool,
    /// Underline.
    pub underline: bool,
    /// Blink.
    pub blink: bool,
    /// Reverse video.
    pub reverse: bool,
    /// Strike-through.
    pub strike: bool,
}

/// The state of a fresh terminal: default colors, no attribute.
pub open spec fn default_state() -> StyleState {
    StyleState {
        fg: SimpleColor::Default,
        bg: SimpleColor::Default,
        bold: false,
        dim: false,
        italic: false,
        underline: false,
        blink: false,
        reverse: false,
        strike: false,
    }
}

/// The attribute that an optional flag turns on.
pub open spec fn flag(b: Option<bool>) -> bool {
    b == Some(true)
}

/// The terminal state that a segment's style asks for (unset means default).
pub open spec fn state_of(style: Option<Style>) -> StyleState {
    match style {
        None => default_state(),
        Some(s) => StyleState {
            fg: match s.color { Some(c) => c, None => SimpleColor::Default },
            bg: match s.bgcolor { Some(c) => c, None => SimpleColor::Default },
            bold: flag(s.bold),
            dim: flag(s.dim),
            italic: flag(s.italic),
            underline: flag(s.underline),
            blink: flag(s.blink),
            reverse: flag(s.reverse),
            strike: flag(s.strike),
        },
    }
}

/// The SGR parameters that move the terminal from `cur` to `t`: attributes switched
/// off first (22 turns off both bold and dim), then changed colors, then attributes
/// switched on.
pub open spec fn sgr_diff_spec(cur: StyleState, t: StyleState, sys: ColorSystem) -> Seq<Seq<char>> {
    if cur == t {
        Seq::empty()
    } else {
        off_codes(cur, t) + color_part(cur, t, sys) + on_codes(cur, t)
    }
}

/// Whether bold or dim is switched off (one parameter turns off both).
pub open spec fn needs_normal_intensity(cur: StyleState, t: StyleState) -> bool {
    (cur.bold && !t.bold) || (cur.dim && !t.dim)
}

/// The parameters that switch attributes off.
pub open spec fn off_codes(cur: StyleState, t: StyleState) -> Seq<Seq<char>> {
    code_if(needs_normal_intensity(cur, t), 22)
        + code_if(cur.italic && !t.italic, 23)
        + code_if(cur.underline && !t.underline, 24)
        + code_if(cur.blink && !t.blink, 25)
        + code_if(cur.reverse && !t.reverse, 27)
        + code_if(cur.strike && !t.strike, 29)
}

/// The parameters of the colors that change.
pub open spec fn color_part(cur: StyleState, t: StyleState, sys: ColorSystem) -> Seq<Seq<char>> {
    (if cur.fg != t.fg { color_codes(t.fg, sys, true) } else { Seq::empty() })
        + (if cur.bg != t.bg { color_codes(t.bg, sys, false) } else { Seq::empty() })
}

/// The parameters that switch attributes on (bold and dim again after a 22).
pub open spec fn on_codes(cur: StyleState, t: StyleState) -> Seq<Seq<char>> {
    let n22 = needs_normal_intensity(cur, t);
    code_if(t.bold && (!cur.bold || n22), 1)
        + code_if(t.dim && (!cur.dim || n22), 2)
        + code_if(t.italic && !cur.italic, 3)
        + code_if(t.underline && !cur.underline, 4)
        + code_if(t.blink && !cur.blink, 5)
        + code_if(t.reverse && !cur.reverse, 7)
        + code_if(t.strike && !cur.strike, 9)
}

/// The escape sequence of a control code (a title without text writes nothing).
pub open spec fn control_code(c: ControlType) -> Seq<char> {
    match c {
        ControlType::Bell => seq!['\x07'],
        ControlType::CarriageReturn => seq!['\r'],
        ControlType::Home => "\x1b[H"@,
        ControlType::Clear => "\x1b[2J\x1b[H"@,
        ControlType::ShowCursor => "\x1b[?25h"@,
        ControlType::HideCursor => "\x1b[?25l"@,
        ControlType::EnableAltScreen => "\x1b[?1049h"@,
        ControlType::DisableAltScreen => "\x1b[?1049l"@,
        ControlType::SetTitle => Seq::empty(),
        ControlType::CursorUp(n) => "\x1b["@ + decimal_spec(n as nat) + seq!['A'],
        ControlType::CursorDown(n) => "\x1b["@ + decimal_spec(n as nat) + seq!['B'],
        ControlType::CursorForward(n) => "\x1b["@ + decimal_spec(n as nat) + seq!['C'],
        ControlType::CursorBackward(n) => "\x1b["@ + decimal_spec(n as nat) + seq!['D'],
        ControlType::EraseInLine(m) => "\x1b["@ + decimal_spec(m as nat) + seq!['K'],
        ControlType::MoveTo { x, y } => "\x1b["@ + decimal_spec(y as nat + 1) + seq![';']
            + decimal_spec(x as nat + 1) + seq!['H'],
    }
}

/// The output of the segments `segs` when the terminal is in state `cur` and `used`
/// tells whether an escape sequence was written already. With a color system, each
/// text segment is preceded by the switch from the current state to its own, and a
/// reset ends the output when a sequence was written and the state is not the default.
/// Without one, text is written as it is. Control segments write their sequence.
pub open spec fn stream_from(segs: Seq<SegView>, sys: Option<ColorSystem>, cur: StyleState, used: bool) -> Seq<char>
    decreases segs.len(),
{
    if segs.len() == 0 {
        if sys is Some && used && cur != default_state() { "\x1b[0m"@ } else { Seq::empty() }
    } else {
        let s = segs[0];
        match s.2 {
            Some(c) => control_code(c) + stream_from(segs.drop_first(), sys, cur, used),
            None => match sys {
                None => s.0 + stream_from(segs.drop_first(), sys, cur, used),
                Some(system) => {
                    let t = state_of(s.1);
                    let d = join_codes(sgr_diff_spec(cur, t, system));
                    (if d.len() > 0 { "\x1b["@ + d + seq!['m'] } else { Seq::empty() }) + s.0
                        + stream_from(segs.drop_first(), sys, t, used || d.len() > 0)
                },
            },
        }
    }
}

/// The output of a sequence of segments written to a fresh terminal.
pub open spec fn stream_spec(segs: Seq<SegView>, sys: Option<ColorSystem>) -> Seq<char> {
    stream_from(segs, sys, default_state(), false)
}

fn flag_exec(b: Option<bool>) -> (r: bool)
    ensures
        r == flag(b),
{
    match b {
        Some(v) => v,
        None => false,
    }
}

/// The terminal state that a style asks for.
pub fn state_of_style(style: Option<Style>) -> (r: StyleState)
    ensures
        r == state_of(style),
{
    match style {
        None => StyleState {
            fg: SimpleColor::Default,
            bg: SimpleColor::Default,
            bold: false,
            dim: false,
            italic: false,
            underline: false,
            blink: false,
            reverse: false,
            strike: false,
        },
        Some(s) => StyleState {
            fg: match s.color { Some(c) => c, None => SimpleColor::Default },
            bg: match s.bgcolor { Some(c) => c, None => SimpleColor::Default },
            bold: flag_exec(s.bold),
            dim: flag_exec(s.dim),
            italic: flag_exec(s.italic),
            underline: flag_exec(s.underline),
            blink: flag_exec(s.blink),
            reverse: flag_exec(s.reverse),
            strike: flag_exec(s.strike),
        },
    }
}

fn append_codes(codes: &mut Vec<String>, more: Vec<String>)
    ensures
        views(final(codes)@) == views(old(codes)@) + views(more@),
{
    let mut more = more;
    let ghost a = views(codes@);
    let ghost m = views(more@);
    codes.append(&mut more);
    assert(views(codes@) =~= a + m);
}

fn off_code_list(cur: StyleState, target: StyleState) -> (r: Vec<String>)
    ensures
        views(r@) == off_codes(cur, target),
{
    let mut codes: Vec<String> = Vec::new();
    assert(views(codes@) =~= Seq::<Seq<char>>::empty());
    let n22 = (cur.bold && !target.bold) || (cur.dim && !target.dim);
    push_code_if(&mut codes, n22, 22);
    push_code_if(&mut codes, cur.italic && !target.italic, 23);
    push_code_if(&mut codes, cur.underline && !target.underline, 24);
    push_code_if(&mut codes, cur.blink && !target.blink, 25);
    push_code_if(&mut codes, cur.reverse && !target.reverse, 27);
    push_code_if(&mut codes, cur.strike && !target.strike, 29);
    codes
}

fn on_code_list(cur: StyleState, target: StyleState) -> (r: Vec<String>)
    ensures
        views(r@) == on_codes(cur, target),
{
    let mut codes: Vec<String> = Vec::new();
    assert(views(codes@) =~= Seq::<Seq<char>>::empty());
    let n22 = (cur.bold && !target.bold) || (cur.dim && !target.dim);
    push_code_if(&mut codes, target.bold && (!cur.bold || n22), 1);
    push_code_if(&mut codes, target.dim && (!cur.dim || n22), 2);
    push_code_if(&mut codes, target.italic && !cur.italic, 3);
    push_code_if(&mut codes, target.underline && !cur.underline, 4);
    push_code_if(&mut codes, target.blink && !cur.blink, 5);
    push_code_if(&mut codes, target.reverse && !cur.reverse, 7);
    push_code_if(&mut codes, target.strike && !cur.strike, 9);
    codes
}

fn color_code_part(cur: StyleState, target: StyleState, sys: ColorSystem) -> (r: Vec<String>)
    ensures
        views(r@) == color_part(cur, target, sys),
{
    let mut codes: Vec<String> = Vec::new();
    assert(views(codes@) =~= Seq::<Seq<char>>::empty());
    let ghost before_fg = views(codes@);
    if cur.fg != target.fg {
        append_codes(&mut codes, color_code_list(target.fg, sys, true));
    } else {
        assert(views(codes@) =~= before_fg + Seq::<Seq<char>>::empty());
    }
    let ghost before_bg = views(codes@);
    if cur.bg != target.bg {
        append_codes(&mut codes, color_code_list(target.bg, sys, false));
    } else {
        assert(views(codes@) =~= before_bg + Seq::<Seq<char>>::empty());
    }
    codes
}

/// The SGR parameters (joined with `;`) that move the terminal from `cur` to `target`.
pub fn sgr_diff(cur: StyleState, target: StyleState, sys: ColorSystem) -> (r: String)
    ensures
        r@ == join_codes(sgr_diff_spec(cur, target, sys)),
{
    let mut codes: Vec<String> = Vec::new();
    if cur == target {
        assert(views(codes@) =~= Seq::<Seq<char>>::empty());
        return join_strings(&codes);
    }
    codes = off_code_list(cur, target);
    append_codes(&mut codes, color_code_part(cur, target, sys));
    append_codes(&mut codes, on_code_list(cur, target));
    join_strings(&codes)
}

fn push_num(out: &mut String, n: u64)
    ensures
        final(out)@ == old(out)@ + decimal_spec(n as nat),
{
    let s = u64_to_string(n);
    push_str(out, s.as_str());
}

/// Append the escape sequence of a control code.
pub fn push_control(out: &mut String, c: ControlType)
    ensures
        final(out)@ == old(out)@ + control_code(c),
{
    let ghost before = out@;
    match c {
        ControlType::Bell => {
            out.push('\x07');
        },
        ControlType::CarriageReturn => {
            out.push('\r');
        },
        ControlType::Home => {
            push_str(out, "\x1b[H");
        },
        ControlType::Clear => {
            push_str(out, "\x1b[2J\x1b[H");
        },
        ControlType::ShowCursor => {
            push_str(out, "\x1b[?25h");
        },
        ControlType::HideCursor => {
            push_str(out, "\x1b[?25l");
        },
        ControlType::EnableAltScreen => {
            push_str(out, "\x1b[?1049h");
        },
        ControlType::DisableAltScreen => {
            push_str(out, "\x1b[?1049l");
        },
        ControlType::SetTitle => {},
        ControlType::CursorUp(n) => {
            push_str(out, "\x1b[");
            push_num(out, n as u64);
            out.push('A');
        },
        ControlType::CursorDown(n) => {
            push_str(out, "\x1b[");
            push_num(out, n as u64);
            out.push('B');
        },
        ControlType::CursorForward(n) => {
            push_str(out, "\x1b[");
            push_num(out, n as u64);
            out.push('C');
        },
        ControlType::CursorBackward(n) => {
            push_str(out, "\x1b[");
            push_num(out, n as u64);
            out.push('D');
        },
        ControlType::EraseInLine(m) => {
            push_str(out, "\x1b[");
            push_num(out, m as u64);
            out.push('K');
        },
        ControlType::MoveTo { x, y } => {
            push_str(out, "\x1b[");
            push_num(out, y as u64 + 1);
            out.push(';');
            push_num(out, x as u64 + 1);
            out.push('H');
        },
    }
    assert(out@ =~= before + control_code(c));
}

/// The output of segments written to a fresh terminal with a color system (or none).
pub fn stream_segments(segs: &Vec<Segment>, sys: Option<ColorSystem>) -> (r: String)
    ensures
        r@ == stream_spec(segs_view(segs@), sys),
{
    let mut out = String::new();
    let mut cur = state_of_style(None);
    let mut used = false;
    let ghost all = segs_view(segs@);
    let mut i: usize = 0;
    assert(all.skip(0) =~= all);
    while i < segs.len()
        invariant
            i <= segs.len(),
            all == segs_view(segs@),
            out@ + stream_from(all.skip(i as int), sys, cur, used) == stream_spec(all, sys),
        decreases segs.len() - i,
    {
        let seg = &segs[i];
        let ghost before = out@;
        let ghost rest = all.skip(i as int);
        proof {
            assert(rest[0] == (seg.text@, seg.style, seg.control));
            assert(rest.drop_first() =~= all.skip(i + 1));
        }
        match seg.control {
            Some(c) => {
                push_control(&mut out, c);
                assert(out@ + stream_from(all.skip(i + 1), sys, cur, used) =~= before + stream_from(rest, sys, cur, used));
            },
            None => {
                match sys {
                    None => {
                        push_str(&mut out, seg.text.as_str());
                        assert(out@ + stream_from(all.skip(i + 1), sys, cur, used) =~= before + stream_from(rest, sys, cur, used));
                    },
                    Some(system) => {
                        let target = state_of_style(seg.style);
                        let diff = sgr_diff(cur, target, system);
                        let ghost old_used = used;
                        let ghost old_cur = cur;
                        if !diff.as_str().is_empty() {
                            push_str(&mut out, "\x1b[");
                            push_str(&mut out, diff.as_str());
                            out.push('m');
                            used = true;
                        }
                        push_str(&mut out, seg.text.as_str());
                        cur = target;
                        proof {
                            let d = join_codes(sgr_diff_spec(old_cur, target, system));
                            assert(used == (old_used || d.len() > 0));
                            assert(out@ =~= before + (if d.len() > 0 { "\x1b["@ + d + seq!['m'] } else { Seq::empty() }) + seg.text@);
                            assert(out@ + stream_from(all.skip(i + 1), sys, cur, used) =~= before + stream_from(rest, sys, old_cur, old_used));
                        }
                    },
                }
            },
        }
        i = i + 1;
    }
    let ghost before = out@;
    assert(all.skip(i as int).len() == 0);
    if sys.is_some() && used && cur != state_of_style(None) {
        push_str(&mut out, "\x1b[0m");
    }
    assert(out@ =~= stream_spec(all, sys));
    out
}

/// The output of one segment written on its own: a control's code, styled text in its
/// style's own codes (where there is a color system), else the text.
pub open spec fn segment_piece(s: SegView, sys: Option<ColorSystem>) -> Seq<char> {
    match s.2 {
        Some(c) => control_code(c),
        None => match (s.1, sys) {
            (Some(st), Some(_)) => crate::style::render_spec(st, s.0, sys),
            _ => s.0,
        },
    }
}

/// The output of segments written one by one, each with its own style codes.
pub open spec fn segment_mode_spec(segs: Seq<SegView>, sys: Option<ColorSystem>) -> Seq<char>
    decreases segs.len(),
{
    if segs.len() == 0 {
        Seq::empty()
    } else {
        segment_mode_spec(segs.drop_last(), sys) + segment_piece(segs.last(), sys)
    }
}

/// The output of segments written one by one, each styled on its own (the mode for
/// consoles that do not keep state between writes).
pub fn segment_mode_segments(segs: &Vec<Segment>, sys: Option<ColorSystem>) -> (r: String)
    ensures
        r@ == segment_mode_spec(segs_view(segs@), sys),
{
    let mut out = String::new();
    let ghost all = segs_view(segs@);
    let mut i: usize = 0;
    while i < segs.len()
        invariant
            i <= segs.len(),
            all == segs_view(segs@),
            out@ == segment_mode_spec(all.take(i as int), sys),
        decreases segs.len() - i,
    {
        let seg = &segs[i];
        proof {
            assert(all.take(i + 1).drop_last() =~= all.take(i as int));
            assert(all.take(i + 1).last() == (seg.text@, seg.style, seg.control));
        }
        match seg.control {
            Some(c) => push_control(&mut out, c),
            None => match (seg.style, sys) {
                (Some(st), Some(_)) => {
                    let styled = st.render(seg.text.as_str(), sys);
                    push_str(&mut out, styled.as_str());
                },
                _ => push_str(&mut out, seg.text.as_str()),
            },
        }
        i = i + 1;
    }
    assert(all.take(i as int) =~= all);
    out
}

} // verus!
