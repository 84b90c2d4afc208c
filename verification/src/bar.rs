//! The text of a bar drawn with block characters in eighths of a cell.
use vstd::prelude::*;
use crate::segment::{Segment, SegView, ControlType, segs_view};
use crate::strs::{repeat_spec, push_repeat};
use crate::style::Style;

verus! {

/// The block that starts a bar `k` eighths into a cell (`k` from 1 to 7).
pub open spec fn begin_block(k: nat) -> char {
    if k <= 2 { '\u{2588}' } else if k <= 5 { '\u{2590}' } else { '\u{2595}' }
}

/// The block that ends a bar `k` eighths into a cell (`k` from 1 to 7).
pub open spec fn end_block(k: nat) -> char {
    if k == 1 {
        '\u{258F}'
    } else if k == 2 {
        '\u{258E}'
    } else if k == 3 {
        '\u{258D}'
    } else if k == 4 {
        '\u{258C}'
    } else if k == 5 {
        '\u{258B}'
    } else if k == 6 {
        '\u{258A}'
    } else {
        '\u{2589}'
    }
}

/// The blank run before a bar that starts `e` eighths in.
pub open spec fn bar_prefix(e: nat) -> Seq<char> {
    repeat_spec(' ', e / 8) + (if e % 8 > 0 { seq![begin_block(e % 8)] } else { Seq::empty() })
}

/// The filled run of a bar that ends `e` eighths in.
pub open spec fn bar_body(e: nat) -> Seq<char> {
    repeat_spec('\u{2588}', e / 8) + (if e % 8 > 0 { seq![end_block(e % 8)] } else { Seq::empty() })
}

/// A bar `width` cells wide from `b` to `e` eighths: the prefix, the body after as many
/// characters as the prefix has, spaces up to the width.
pub open spec fn bar_text(width: nat, b: nat, e: nat) -> Seq<char> {
    let p = bar_prefix(b);
    let body = bar_body(e);
    let rest = if p.len() <= body.len() { body.skip(p.len() as int) } else { Seq::empty() };
    p + rest + repeat_spec(' ', if width >= body.len() { (width - body.len()) as nat } else { 0 })
}

/// The segments of a bar: the bar's line in its style and a newline; with no range
/// (`None`) a blank line of the width.
pub open spec fn bar_segs(width: nat, range: Option<(usize, usize)>, style: Style) -> Seq<SegView> {
    let t = match range {
        Some(r) => bar_text(width, r.0 as nat, r.1 as nat),
        None => repeat_spec(' ', width),
    };
    seq![(t, Some(style), None::<ControlType>), (seq!['\n'], None::<Style>, None::<ControlType>)]
}

fn begin_block_exec(k: usize) -> (r: char)
    ensures
        r == begin_block(k as nat),
{
    if k <= 2 { '\u{2588}' } else if k <= 5 { '\u{2590}' } else { '\u{2595}' }
}

fn end_block_exec(k: usize) -> (r: char)
    ensures
        r == end_block(k as nat),
{
    if k == 1 {
        '\u{258F}'
    } else if k == 2 {
        '\u{258E}'
    } else if k == 3 {
        '\u{258D}'
    } else if k == 4 {
        '\u{258C}'
    } else if k == 5 {
        '\u{258B}'
    } else if k == 6 {
        '\u{258A}'
    } else {
        '\u{2589}'
    }
}

/// The segments of a bar (see `bar_segs`): `range` holds the eighths where the bar
/// starts and ends, none for an empty bar.
pub fn bar_segments(width: usize, range: Option<(usize, usize)>, style: Style) -> (r: Vec<Segment>)
    ensures
        segs_view(r@) == bar_segs(width as nat, range, style),
{
    let mut t: Vec<char> = Vec::new();
    match range {
        None => {
            let mut i: usize = 0;
            while i < width
                invariant
                    i <= width,
                    t@ == repeat_spec(' ', i as nat),
                decreases width - i,
            {
                t.push(' ');
                assert(t@ =~= repeat_spec(' ', (i + 1) as nat));
                i = i + 1;
            }
        },
        Some(r) => {
            let b = r.0;
            let e = r.1;
            let mut p: Vec<char> = Vec::new();
            let mut i: usize = 0;
            while i < b / 8
                invariant
                    i <= b / 8,
                    p@ == repeat_spec(' ', i as nat),
                decreases b / 8 - i,
            {
                p.push(' ');
                assert(p@ =~= repeat_spec(' ', (i + 1) as nat));
                i = i + 1;
            }
            if b % 8 > 0 {
                p.push(begin_block_exec(b % 8));
            }
            assert(p@ =~= bar_prefix(b as nat));
            let mut body: Vec<char> = Vec::new();
            let mut j: usize = 0;
            while j < e / 8
                invariant
                    j <= e / 8,
                    body@ == repeat_spec('\u{2588}', j as nat),
                decreases e / 8 - j,
            {
                body.push('\u{2588}');
                assert(body@ =~= repeat_spec('\u{2588}', (j + 1) as nat));
                j = j + 1;
            }
            if e % 8 > 0 {
                body.push(end_block_exec(e % 8));
            }
            assert(body@ =~= bar_body(e as nat));
            let mut k: usize = 0;
            while k < p.len()
                invariant
                    k <= p.len(),
                    t@ == p@.take(k as int),
                decreases p.len() - k,
            {
                t.push(p[k]);
                assert(t@ =~= p@.take(k + 1));
                k = k + 1;
            }
            assert(p@.take(k as int) =~= p@);
            let ghost before = t@;
            if p.len() < body.len() {
                let mut m: usize = p.len();
                while m < body.len()
                    invariant
                        p@.len() <= m <= body@.len(),
                        t@ == before + body@.subrange(p@.len() as int, m as int),
                    decreases body.len() - m,
                {
                    t.push(body[m]);
                    assert(t@ =~= before + body@.subrange(p@.len() as int, m + 1));
                    m = m + 1;
                }
                assert(body@.subrange(p@.len() as int, body@.len() as int) =~= body@.skip(p@.len() as int));
            } else if p.len() == body.len() {
                assert(body@.skip(p@.len() as int) =~= Seq::<char>::empty());
                assert(t@ =~= before + body@.skip(p@.len() as int));
            } else {
                assert(t@ =~= before + Seq::<char>::empty());
            }
            let pad: usize = if width >= body.len() { width - body.len() } else { 0 };
            let mut q: usize = 0;
            let ghost mid = t@;
            while q < pad
                invariant
                    q <= pad,
                    t@ == mid + repeat_spec(' ', q as nat),
                decreases pad - q,
            {
                t.push(' ');
                assert(t@ =~= mid + repeat_spec(' ', (q + 1) as nat));
                q = q + 1;
            }
            assert(t@ =~= bar_text(width as nat, b as nat, e as nat));
        },
    }
    let text = crate::strs::string_from_chars(t.as_slice());
    let mut out: Vec<Segment> = Vec::new();
    out.push(Segment::from_string(text, Some(style)));
    out.push(Segment::line());
    assert(segs_view(out@) =~= bar_segs(width as nat, range, style));
    out
}

} // verus!
