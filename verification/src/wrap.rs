//! Word wrapping of styled characters: dividing a line at word boundaries so that it
//! fits a width, folding words that are wider than the width.
use vstd::prelude::*;
use crate::style::Style;
use crate::cells::{cw, chars_width, char_width, chop_cells, chop_cells_spec, string_views};
use crate::measure::sat_add;
use crate::console::{JustifyMethod, OverflowMethod};
use crate::strs::{is_white_space, char_is_whitespace, string_from_chars, str_chars};

verus! {

broadcast use vstd::string::group_string_axioms;

/// A character with its style.
pub type SChar = (char, Option<Style>);

/// Lines of styled characters as values.
pub open spec fn vv(v: Seq<Vec<SChar>>) -> Seq<Seq<SChar>> {
    v.map_values(|x: Vec<SChar>| x@)
}

/// The characters of styled characters.
pub open spec fn chars_of(s: Seq<SChar>) -> Seq<char> {
    s.map_values(|x: SChar| x.0)
}

/// Cells taken by styled characters.
pub open spec fn sw(s: Seq<SChar>) -> nat {
    chars_width(chars_of(s))
}

/// The first position from `i` on that does not hold whitespace.
pub open spec fn skip_ws(s: Seq<SChar>, i: int) -> int
    decreases s.len() - i,
{
    if 0 <= i < s.len() && is_white_space(s[i].0) {
        skip_ws(s, i + 1)
    } else {
        i
    }
}

/// The first position from `i` on that holds whitespace.
pub open spec fn skip_word(s: Seq<SChar>, i: int) -> int
    decreases s.len() - i,
{
    if 0 <= i < s.len() && !is_white_space(s[i].0) {
        skip_word(s, i + 1)
    } else {
        i
    }
}

/// Skipping whitespace moves forward and stays within the text.
pub proof fn lemma_skip_ws(s: Seq<SChar>, i: int)
    requires
        0 <= i <= s.len(),
    ensures
        i <= skip_ws(s, i) <= s.len(),
        skip_ws(s, i) < s.len() ==> !is_white_space(s[skip_ws(s, i)].0),
    decreases s.len() - i,
{
    if i < s.len() && is_white_space(s[i].0) {
        lemma_skip_ws(s, i + 1);
    }
}

/// Skipping a word moves forward and stays within the text.
pub proof fn lemma_skip_word(s: Seq<SChar>, i: int)
    requires
        0 <= i <= s.len(),
    ensures
        i <= skip_word(s, i) <= s.len(),
        i < s.len() && !is_white_space(s[i].0) ==> skip_word(s, i) > i,
    decreases s.len() - i,
{
    if i < s.len() && !is_white_space(s[i].0) {
        lemma_skip_word(s, i + 1);
    }
}

/// Cut the current line at `at` (when `at` is past the start of the text and within
/// it, and not before the current line's start): the line `ls..at` is finished.
pub open spec fn cut_at(s: Seq<SChar>, at: int, ls: int, lines: Seq<Seq<SChar>>) -> (Seq<Seq<SChar>>, int) {
    if at > 0 && ls <= at <= s.len() {
        (lines.push(s.subrange(ls, at)), at)
    } else {
        (lines, ls)
    }
}

/// Cuts before each of the pieces `pieces[k..]` of a folded word, the first piece
/// starting at `start`.
pub open spec fn fold_cuts(s: Seq<SChar>, pieces: Seq<Seq<char>>, k: int, start: int, ls: int, lines: Seq<Seq<SChar>>) -> (Seq<Seq<SChar>>, int)
    decreases pieces.len() - k,
{
    if k >= pieces.len() || k < 0 {
        (lines, ls)
    } else {
        let c = cut_at(s, start, ls, lines);
        fold_cuts(s, pieces, k + 1, start + pieces[k].len(), c.1, c.0)
    }
}

/// A width held at `usize::MAX` when it would not fit.
pub open spec fn satw(n: nat) -> nat {
    if n > usize::MAX { usize::MAX as nat } else { n }
}

/// The lines of `s` from the word at `i` on: `offset` cells of the current line are
/// taken, the current line starts at `ls`, and `lines` are finished. A word that fits
/// stays on the line; one that does not starts a new line (when the line has content),
/// and one wider than the width is folded into pieces (`fold`) or left whole.
pub open spec fn divide_from(s: Seq<SChar>, width: nat, fold: bool, i: int, offset: nat, ls: int, lines: Seq<Seq<SChar>>) -> Seq<Seq<SChar>>
    decreases s.len() - i,
{
    if i < 0 || i >= s.len() || skip_ws(s, i) >= s.len() {
        lines.push(s.subrange(ls, s.len() as int))
    } else {
        proof {
            lemma_skip_ws(s, i);
            lemma_skip_word(s, skip_ws(s, i));
            lemma_skip_ws(s, skip_word(s, skip_ws(s, i)));
        }
        let k = skip_word(s, skip_ws(s, i));
        let e = skip_ws(s, k);
        let wl = satw(sw(s.subrange(i, k)));
        let full = satw(sw(s.subrange(i, e)));
        if offset + wl <= width {
            divide_from(s, width, fold, e, sat_add(offset, full), ls, lines)
        } else if wl > width {
            if fold {
                let pieces = chop_cells_spec(chars_of(s.subrange(i, e)), width);
                let c = fold_cuts(s, pieces, 0, i, ls, lines);
                divide_from(s, width, fold, e, satw(chars_width(pieces.last())), c.1, c.0)
            } else {
                let c = cut_at(s, i, ls, lines);
                divide_from(s, width, fold, e, full, c.1, c.0)
            }
        } else if offset > 0 && i > 0 {
            let c = cut_at(s, i, ls, lines);
            divide_from(s, width, fold, e, full, c.1, c.0)
        } else {
            divide_from(s, width, fold, e, offset, ls, lines)
        }
    }
}

/// The lines that wrapping `s` to `width` cells gives.
pub open spec fn divide_line(s: Seq<SChar>, width: nat, fold: bool) -> Seq<Seq<SChar>> {
    divide_from(s, width, fold, 0, 0, 0, Seq::empty())
}

fn width_of(s: &Vec<SChar>, from: usize, to: usize) -> (r: usize)
    requires
        from <= to <= s.len(),
    ensures
        r == satw(sw(s@.subrange(from as int, to as int))),
{
    let mut total: usize = 0;
    let mut k: usize = from;
    let ghost mut exact: nat = 0;
    while k < to
        invariant
            from <= k <= to <= s.len(),
            exact == sw(s@.subrange(from as int, k as int)),
            exact <= usize::MAX ==> total == exact,
            exact > usize::MAX ==> total == usize::MAX,
        decreases to - k,
    {
        let w = char_width(s[k].0);
        proof {
            let a = s@.subrange(from as int, k as int);
            let b = s@.subrange(from as int, k + 1);
            assert(chars_of(b).drop_last() =~= chars_of(a));
            assert(chars_of(b).last() == s@[k as int].0);
            exact = exact + w as nat;
        }
        total = total.saturating_add(w);
        k = k + 1;
    }
    total
}

/// Position of the first character from `i` on that is not whitespace.
fn skip_ws_exec(s: &Vec<SChar>, i: usize) -> (r: usize)
    requires
        i <= s.len(),
    ensures
        r == skip_ws(s@, i as int),
        i <= r <= s.len(),
{
    let mut j = i;
    proof {
        lemma_skip_ws(s@, i as int);
    }
    while j < s.len() && char_is_whitespace(s[j].0)
        invariant
            i <= j <= s.len(),
            skip_ws(s@, j as int) == skip_ws(s@, i as int),
        decreases s.len() - j,
    {
        j = j + 1;
    }
    j
}

/// Position of the first whitespace character from `i` on.
fn skip_word_exec(s: &Vec<SChar>, i: usize) -> (r: usize)
    requires
        i <= s.len(),
    ensures
        r == skip_word(s@, i as int),
        i <= r <= s.len(),
{
    let mut j = i;
    proof {
        lemma_skip_word(s@, i as int);
    }
    while j < s.len() && !char_is_whitespace(s[j].0)
        invariant
            i <= j <= s.len(),
            skip_word(s@, j as int) == skip_word(s@, i as int),
        decreases s.len() - j,
    {
        j = j + 1;
    }
    j
}

/// The styled characters `from..to`.
pub fn sub_schars(s: &Vec<SChar>, from: usize, to: usize) -> (r: Vec<SChar>)
    requires
        from <= to <= s.len(),
    ensures
        r@ == s@.subrange(from as int, to as int),
{
    let mut v: Vec<SChar> = Vec::new();
    let mut k = from;
    while k < to
        invariant
            from <= k <= to <= s.len(),
            v@ =~= s@.subrange(from as int, k as int),
        decreases to - k,
    {
        v.push(s[k]);
        k = k + 1;
    }
    v
}

/// The characters of styled characters.
pub fn chars_of_exec(s: &Vec<SChar>) -> (r: Vec<char>)
    ensures
        r@ == chars_of(s@),
{
    let mut v: Vec<char> = Vec::new();
    let mut k: usize = 0;
    while k < s.len()
        invariant
            k <= s.len(),
            v@ =~= chars_of(s@.take(k as int)),
        decreases s.len() - k,
    {
        v.push(s[k].0);
        k = k + 1;
    }
    assert(s@.take(k as int) =~= s@);
    v
}

fn cut_exec(s: &Vec<SChar>, at: usize, ls: &mut usize, lines: &mut Vec<Vec<SChar>>)
    ensures
        (vv(final(lines)@), *final(ls) as int) == cut_at(s@, at as int, *old(ls) as int, vv(old(lines)@)),
{
    if at > 0 && *ls <= at && at <= s.len() {
        let l = sub_schars(s, *ls, at);
        lines.push(l);
        *ls = at;
    }
}

/// Cells taken by characters, held at `usize::MAX` when the sum would not fit.
pub fn chars_width_sat(chars: &[char]) -> (r: usize)
    ensures
        r == satw(chars_width(chars@)),
{
    let mut total: usize = 0;
    let mut k: usize = 0;
    let ghost mut exact: nat = 0;
    while k < chars.len()
        invariant
            k <= chars.len(),
            exact == chars_width(chars@.take(k as int)),
            total == satw(exact),
        decreases chars.len() - k,
    {
        let w = char_width(chars[k]);
        proof {
            assert(chars@.take(k + 1).drop_last() =~= chars@.take(k as int));
            exact = exact + w as nat;
        }
        total = total.saturating_add(w);
        k = k + 1;
    }
    assert(chars@.take(k as int) =~= chars@);
    total
}

/// Wrap styled characters to `width` cells.
pub fn divide_styled(s: &Vec<SChar>, width: usize, fold: bool) -> (r: Vec<Vec<SChar>>)
    ensures
        vv(r@) == divide_line(s@, width as nat, fold),
{
    let mut lines: Vec<Vec<SChar>> = Vec::new();
    let mut ls: usize = 0;
    let mut offset: usize = 0;
    let mut i: usize = 0;
    assert(vv(lines@) =~= Seq::<Seq<SChar>>::empty());
    while i < s.len()
        invariant_except_break
            i <= s.len(),
            ls <= s.len(),
            divide_from(s@, width as nat, fold, i as int, offset as nat, ls as int, vv(lines@)) == divide_line(s@, width as nat, fold),
        ensures
            ls <= s.len(),
            vv(lines@).push(s@.subrange(ls as int, s@.len() as int)) == divide_line(s@, width as nat, fold),
        decreases s.len() - i,
    {
        let j = skip_ws_exec(s, i);
        if j >= s.len() {
            break;
        }
        let k = skip_word_exec(s, j);
        proof {
            lemma_skip_ws(s@, i as int);
            lemma_skip_word(s@, j as int);
        }
        let e = skip_ws_exec(s, k);
        let wl = width_of(s, i, k);
        let full = width_of(s, i, e);
        let ghost old_lines = vv(lines@);
        let ghost old_ls = ls;
        if offset <= width && wl <= width - offset {
            offset = offset.saturating_add(full);
        } else if wl > width {
            if fold {
                let word = sub_schars(s, i, e);
                let wc = chars_of_exec(&word);
                let ws = string_from_chars(wc.as_slice());
                let pieces = chop_cells(ws.as_str(), width);
                let ghost gp = chop_cells_spec(chars_of(s@.subrange(i as int, e as int)), width as nat);
                assert(string_views(pieces@) == gp);
                let mut start: usize = i;
                let mut saturated = false;
                let mut p: usize = 0;
                let ghost mut gstart: int = i as int;
                while p < pieces.len()
                    invariant
                        p <= pieces.len(),
                        string_views(pieces@) == gp,
                        ls <= s.len(),
                        !saturated ==> start == gstart,
                        saturated ==> gstart > usize::MAX,
                        gstart >= 0,
                        fold_cuts(s@, gp, p as int, gstart, ls as int, vv(lines@)) == fold_cuts(s@, gp, 0, i as int, old_ls as int, old_lines),
                    decreases pieces.len() - p,
                {
                    if !saturated {
                        cut_exec(s, start, &mut ls, &mut lines);
                    }
                    let plen = str_chars(pieces[p].as_str()).len();
                    assert(plen == gp[p as int].len());
                    if !saturated {
                        match start.checked_add(plen) {
                            Some(v) => {
                                start = v;
                            },
                            None => {
                                saturated = true;
                            },
                        }
                    }
                    proof { gstart = gstart + plen; }
                    p = p + 1;
                }
                let lastw: usize = if pieces.len() > 0 {
                    let lc = str_chars(pieces[pieces.len() - 1].as_str());
                    chars_width_sat(lc.as_slice())
                } else {
                    0
                };
                assert(gp.len() > 0) by {
                    crate::cells::lemma_chop_nonempty(chars_of(s@.subrange(i as int, e as int)), width as nat);
                }
                offset = lastw;
            } else {
                cut_exec(s, i, &mut ls, &mut lines);
                offset = full;
            }
        } else if offset > 0 && i > 0 {
            cut_exec(s, i, &mut ls, &mut lines);
            offset = full;
        }
        i = e;
    }
    let last = sub_schars(s, ls, s.len());
    lines.push(last);
    lines
}

/// Number of whitespace characters at the end.
pub open spec fn trailing_ws_sc(s: Seq<SChar>) -> nat {
    crate::strs::trailing_ws(chars_of(s))
}

/// The characters without trailing whitespace.
pub open spec fn rstrip_spec(s: Seq<SChar>) -> Seq<SChar> {
    s.take(s.len() - trailing_ws_sc(s))
}

/// Trailing whitespace removed as far as the line is longer than `width` characters.
pub open spec fn rstrip_end_spec(s: Seq<SChar>, width: nat) -> Seq<SChar> {
    if s.len() > width {
        let k = trailing_ws_sc(s);
        let ex = (s.len() - width) as nat;
        let cut: nat = if k <= ex { k } else { ex };
        s.take(s.len() - cut)
    } else {
        s
    }
}

/// The characters that fit in `budget` cells, a space in `st` standing for a character
/// that does not fit while some budget is left.
pub open spec fn crop_styled(s: Seq<SChar>, budget: nat, st: Option<Style>) -> Seq<SChar>
    decreases s.len(),
{
    if s.len() == 0 {
        Seq::empty()
    } else if cw(s[0].0) > budget {
        if budget > 0 { seq![(' ', st)] } else { Seq::empty() }
    } else {
        seq![s[0]] + crop_styled(s.drop_first(), (budget - cw(s[0].0)) as nat, st)
    }
}

/// `n` spaces in a style.
pub open spec fn spaces_spec(n: nat, st: Option<Style>) -> Seq<SChar> {
    Seq::new(n, |_i: int| (' ', st))
}

/// A line cut to `width` cells (ending in an ellipsis for that method) unless the
/// overflow is ignored; with `pad`, a narrower line is filled with spaces.
pub open spec fn truncate_spec(s: Seq<SChar>, width: nat, ov: OverflowMethod, base: Option<Style>, pad: bool) -> Seq<SChar> {
    let w = sw(s);
    if ov == OverflowMethod::Ignore {
        s
    } else {
        let cut = if w > width {
            if ov == OverflowMethod::Ellipsis {
                crop_styled(s, if width > 0 { (width - 1) as nat } else { 0 }, base) + seq![('\u{2026}', base)]
            } else {
                crop_styled(s, width, base)
            }
        } else {
            s
        };
        if pad && w < width { cut + spaces_spec((width - w) as nat, base) } else { cut }
    }
}

/// Half of what is left of `width` after `w` cells (rounded down), zero when nothing is left.
pub open spec fn half_gap(width: nat, w: nat) -> nat {
    if width > w { ((width - w) / 2) as nat } else { 0 }
}

/// What is left of `width` after `w` cells, zero when nothing is left.
pub open spec fn gap(width: nat, w: nat) -> nat {
    if width > w { (width - w) as nat } else { 0 }
}

/// One line justified: left pads to the width, center splits the room between both
/// sides, right pads on the left; the default leaves the line as it is.
pub open spec fn justify_line(s: Seq<SChar>, width: nat, j: JustifyMethod, ov: OverflowMethod, base: Option<Style>) -> Seq<SChar> {
    match j {
        JustifyMethod::Left => truncate_spec(rstrip_spec(s), width, ov, base, true),
        JustifyMethod::Center => {
            let t = truncate_spec(rstrip_spec(s), width, ov, base, false);
            let left = spaces_spec(half_gap(width, sw(t)), base) + t;
            left + spaces_spec(gap(width, sw(left)), base)
        },
        JustifyMethod::Right => {
            let t = truncate_spec(rstrip_spec(s), width, ov, base, false);
            spaces_spec(gap(width, sw(t)), base) + t
        },
        _ => s,
    }
}

/// The pieces of styled characters between the characters `sep`.
pub open spec fn split_sc(s: Seq<SChar>, sep: char) -> Seq<Seq<SChar>>
    decreases s.len(),
{
    if s.len() == 0 {
        seq![Seq::empty()]
    } else {
        let parts = split_sc(s.drop_last(), sep);
        if s.last().0 == sep {
            parts.push(Seq::empty())
        } else {
            parts.update(parts.len() - 1, parts.last().push(s.last()))
        }
    }
}

/// The words of a line: the pieces between single spaces (an empty last piece dropped).
pub open spec fn words_of(s: Seq<SChar>) -> Seq<Seq<SChar>> {
    let p = split_sc(s, ' ');
    if p.len() > 1 && p.last().len() == 0 { p.drop_last() } else { p }
}

/// Total cells of words.
pub open spec fn words_width(w: Seq<Seq<SChar>>) -> nat
    decreases w.len(),
{
    if w.len() == 0 { 0 } else { words_width(w.drop_last()) + sw(w.last()) }
}

/// The size of gap `k` of `gaps` when `extra` spaces beyond one per gap are shared out,
/// the last gaps taking one more.
pub open spec fn gap_size(k: int, gaps: nat, extra: nat) -> nat {
    let q = extra / gaps;
    let r = extra % gaps;
    1 + q + (if k >= gaps - r { 1nat } else { 0nat })
}

/// Words joined by their gaps.
pub open spec fn join_words(w: Seq<Seq<SChar>>, gaps: nat, extra: nat, base: Option<Style>) -> Seq<SChar>
    decreases w.len(),
{
    if w.len() == 0 {
        Seq::empty()
    } else if w.len() == 1 {
        w[0]
    } else {
        join_words(w.drop_last(), gaps, extra, base) + spaces_spec(gap_size(w.len() - 2, gaps, extra), base) + w.last()
    }
}

/// A line stretched to `width` by widening the gaps between its words.
pub open spec fn full_line(s: Seq<SChar>, width: nat, base: Option<Style>) -> Seq<SChar> {
    let w = words_of(s);
    if w.len() < 2 {
        s
    } else {
        let gaps = (w.len() - 1) as nat;
        let extra = gap(width, words_width(w) + gaps);
        join_words(w, gaps, extra, base)
    }
}

/// The lines of a paragraph justified (full justification leaves the last line as it is).
pub open spec fn justify_lines(lines: Seq<Seq<SChar>>, width: nat, j: JustifyMethod, ov: OverflowMethod, base: Option<Style>) -> Seq<Seq<SChar>> {
    Seq::new(lines.len(), |i: int|
        if j == JustifyMethod::Full {
            if i < lines.len() - 1 { full_line(lines[i], width, base) } else { lines[i] }
        } else {
            justify_line(lines[i], width, j, ov, base)
        })
}

/// Whether two optional styles are equal.
pub fn style_opt_eq(a: Option<Style>, b: Option<Style>) -> (r: bool)
    ensures
        r == (a == b),
{
    match (a, b) {
        (Some(x), Some(y)) => x == y,
        (None, None) => true,
        _ => false,
    }
}

fn trailing_ws_exec(s: &Vec<SChar>) -> (r: usize)
    ensures
        r == trailing_ws_sc(s@),
        r <= s.len(),
{
    let mut j: usize = s.len();
    assert(s@.take(j as int) =~= s@);
    while j > 0 && char_is_whitespace(s[j - 1].0)
        invariant
            j <= s.len(),
            trailing_ws_sc(s@) == (s.len() - j) + crate::strs::trailing_ws(chars_of(s@.take(j as int))),
        decreases j,
    {
        assert(chars_of(s@.take(j as int)).drop_last() =~= chars_of(s@.take(j - 1)));
        assert(chars_of(s@.take(j as int)).last() == s@[j - 1].0);
        j = j - 1;
    }
    if j > 0 {
        assert(chars_of(s@.take(j as int)).last() == s@[j - 1].0);
    }
    s.len() - j
}

/// The characters without trailing whitespace.
pub fn rstrip_exec(s: &Vec<SChar>) -> (r: Vec<SChar>)
    ensures
        r@ == rstrip_spec(s@),
{
    let k = trailing_ws_exec(s);
    let r = sub_schars(s, 0, s.len() - k);
    assert(r@ =~= rstrip_spec(s@));
    r
}

/// Trailing whitespace removed as far as the line is longer than `width` characters.
pub fn rstrip_end_exec(s: &Vec<SChar>, width: usize) -> (r: Vec<SChar>)
    ensures
        r@ == rstrip_end_spec(s@, width as nat),
{
    if s.len() > width {
        let k = trailing_ws_exec(s);
        let ex = s.len() - width;
        let cut = if k <= ex { k } else { ex };
        let r = sub_schars(s, 0, s.len() - cut);
        assert(r@ =~= rstrip_end_spec(s@, width as nat));
        r
    } else {
        sub_schars(s, 0, s.len())
    }
}

/// The characters that fit in `budget` cells.
pub fn crop_styled_exec(s: &Vec<SChar>, budget: usize, st: Option<Style>) -> (r: Vec<SChar>)
    ensures
        r@ == crop_styled(s@, budget as nat, st),
{
    let mut result: Vec<SChar> = Vec::new();
    let mut current: usize = 0;
    let mut i: usize = 0;
    assert(s@.skip(0) =~= s@);
    assert(result@ + crop_styled(s@, budget as nat, st) =~= crop_styled(s@, budget as nat, st));
    while i < s.len()
        invariant
            0 <= i <= s.len(),
            current <= budget,
            result@ + crop_styled(s@.skip(i as int), (budget - current) as nat, st) == crop_styled(s@, budget as nat, st),
        decreases s.len() - i,
    {
        let c = s[i];
        let w = char_width(c.0);
        assert(s@.skip(i as int)[0] == c);
        assert(s@.skip(i as int).drop_first() == s@.skip(i + 1));
        if w > budget - current {
            let ghost before = result@;
            if current < budget {
                result.push((' ', st));
                assert(result@ =~= before + seq![(' ', st)]);
            } else {
                assert(result@ =~= before + Seq::<SChar>::empty());
            }
            return result;
        }
        let ghost before = result@;
        result.push(c);
        assert(result@ =~= before + seq![c]);
        current = current + w;
        i = i + 1;
    }
    assert(s@.skip(i as int) =~= Seq::<SChar>::empty());
    assert(result@ + Seq::<SChar>::empty() =~= result@);
    result
}

fn push_spaces(v: &mut Vec<SChar>, n: usize, st: Option<Style>)
    ensures
        final(v)@ == old(v)@ + spaces_spec(n as nat, st),
{
    let mut k: usize = 0;
    while k < n
        invariant
            k <= n,
            v@ =~= old(v)@ + spaces_spec(k as nat, st),
        decreases n - k,
    {
        v.push((' ', st));
        k = k + 1;
    }
}

fn append_sc(v: &mut Vec<SChar>, w: &Vec<SChar>)
    ensures
        final(v)@ == old(v)@ + w@,
{
    let mut k: usize = 0;
    while k < w.len()
        invariant
            k <= w.len(),
            v@ =~= old(v)@ + w@.take(k as int),
        decreases w.len() - k,
    {
        v.push(w[k]);
        k = k + 1;
    }
    assert(w@.take(k as int) =~= w@);
}

fn sw_sat(s: &Vec<SChar>) -> (r: usize)
    ensures
        r == satw(sw(s@)),
{
    let cs = chars_of_exec(s);
    chars_width_sat(cs.as_slice())
}

/// A line cut to `width` cells unless the overflow is ignored; with `pad`, a narrower
/// line is filled with spaces.
pub fn truncate_exec(s: &Vec<SChar>, width: usize, ov: OverflowMethod, base: Option<Style>, pad: bool) -> (r: Vec<SChar>)
    ensures
        r@ == truncate_spec(s@, width as nat, ov, base, pad),
{
    if ov == OverflowMethod::Ignore {
        return sub_schars(s, 0, s.len());
    }
    let w = sw_sat(s);
    let over = w > width || (w == width && w == usize::MAX && over_max(s));
    let mut cut = if over {
        if ov == OverflowMethod::Ellipsis {
            let b = if width > 0 { width - 1 } else { 0 };
            let mut c = crop_styled_exec(s, b, base);
            c.push(('\u{2026}', base));
            c
        } else {
            crop_styled_exec(s, width, base)
        }
    } else {
        sub_schars(s, 0, s.len())
    };
    if pad && !over && w < width {
        push_spaces(&mut cut, width - w, base);
    }
    cut
}

fn over_max(s: &Vec<SChar>) -> (r: bool)
    ensures
        r == (sw(s@) > usize::MAX),
{
    let cs = chars_of_exec(s);
    crate::segment::chars_width_checked(cs.as_slice()).is_none()
}

/// One line justified.
pub fn justify_line_exec(s: &Vec<SChar>, width: usize, j: JustifyMethod, ov: OverflowMethod, base: Option<Style>) -> (r: Vec<SChar>)
    ensures
        r@ == justify_line(s@, width as nat, j, ov, base),
{
    match j {
        JustifyMethod::Left => {
            let st = rstrip_exec(s);
            truncate_exec(&st, width, ov, base, true)
        },
        JustifyMethod::Center => {
            let st = rstrip_exec(s);
            let t = truncate_exec(&st, width, ov, base, false);
            let tw = sw_sat(&t);
            let big = over_max(&t);
            let lg: usize = if !big && width > tw { (width - tw) / 2 } else { 0 };
            let mut left: Vec<SChar> = Vec::new();
            push_spaces(&mut left, lg, base);
            append_sc(&mut left, &t);
            let lw = sw_sat(&left);
            let lbig = over_max(&left);
            let rg: usize = if !lbig && width > lw { width - lw } else { 0 };
            push_spaces(&mut left, rg, base);
            left
        },
        JustifyMethod::Right => {
            let st = rstrip_exec(s);
            let t = truncate_exec(&st, width, ov, base, false);
            let tw = sw_sat(&t);
            let big = over_max(&t);
            let g: usize = if !big && width > tw { width - tw } else { 0 };
            let mut out: Vec<SChar> = Vec::new();
            push_spaces(&mut out, g, base);
            append_sc(&mut out, &t);
            out
        },
        _ => sub_schars(s, 0, s.len()),
    }
}

/// The pieces between the characters `sep`.
pub fn split_sc_exec(s: &Vec<SChar>, sep: char) -> (r: Vec<Vec<SChar>>)
    ensures
        vv(r@) == split_sc(s@, sep),
{
    let mut parts: Vec<Vec<SChar>> = Vec::new();
    let mut cur: Vec<SChar> = Vec::new();
    let mut i: usize = 0;
    assert(s@.take(0) =~= Seq::<SChar>::empty());
    while i < s.len()
        invariant
            i <= s.len(),
            split_sc(s@.take(i as int), sep) =~= vv(parts@).push(cur@),
        decreases s.len() - i,
    {
        let c = s[i];
        assert(s@.take(i + 1).drop_last() =~= s@.take(i as int));
        assert(s@.take(i + 1).last() == c);
        if c.0 == sep {
            let done = cur;
            parts.push(done);
            cur = Vec::new();
        } else {
            cur.push(c);
        }
        i = i + 1;
    }
    assert(s@.take(i as int) =~= s@);
    parts.push(cur);
    parts
}

/// A line stretched to `width` by widening the gaps between its words.
pub fn full_line_exec(s: &Vec<SChar>, width: usize, base: Option<Style>) -> (r: Vec<SChar>)
    ensures
        r@ == full_line(s@, width as nat, base),
{
    let mut parts = split_sc_exec(s, ' ');
    let ghost pv = split_sc(s@, ' ');
    if parts.len() > 1 && parts[parts.len() - 1].len() == 0 {
        let _ = parts.pop();
    }
    let ghost wv = words_of(s@);
    assert(vv(parts@) =~= wv);
    if parts.len() < 2 {
        return sub_schars(s, 0, s.len());
    }
    let gaps = parts.len() - 1;
    let mut total: usize = 0;
    let mut big = false;
    let mut k: usize = 0;
    while k < parts.len()
        invariant
            k <= parts.len(),
            vv(parts@) == wv,
            !big ==> total == words_width(wv.take(k as int)),
            big ==> words_width(wv.take(k as int)) > usize::MAX,
        decreases parts.len() - k,
    {
        assert(wv.take(k + 1).drop_last() =~= wv.take(k as int));
        assert(wv.take(k + 1).last() == parts@[k as int]@);
        if !big {
            let w = sw_sat(&parts[k]);
            let wb = over_max(&parts[k]);
            if wb {
                big = true;
            } else {
                match total.checked_add(w) {
                    Some(t) => {
                        total = t;
                    },
                    None => {
                        big = true;
                    },
                }
            }
        }
        k = k + 1;
    }
    assert(wv.take(k as int) =~= wv);
    let extra: usize = if !big && total <= width && gaps <= width - total { width - total - gaps } else { 0 };
    assert(extra as nat == gap(width as nat, words_width(wv) + gaps as nat));
    let q = extra / gaps;
    let rem = extra % gaps;
    assert(q <= extra && extra < usize::MAX && (rem > 0 ==> q + 2 <= usize::MAX) && rem < gaps) by (nonlinear_arith)
        requires
            q == extra / gaps,
            rem == extra % gaps,
            gaps >= 1,
            extra as int + gaps as int <= usize::MAX,
    {
        if rem > 0 {
            assert(gaps >= 2);
            assert(q * gaps <= extra);
            assert(2 * q <= extra);
        }
    }
    let mut out: Vec<SChar> = Vec::new();
    let mut idx: usize = 0;
    while idx < parts.len()
        invariant
            idx <= parts.len(),
            parts.len() >= 2,
            gaps == parts.len() - 1,
            q == extra / gaps,
            rem == extra % gaps,
            vv(parts@) == wv,
            extra < usize::MAX,
            q <= extra,
            rem > 0 ==> q + 2 <= usize::MAX,
            rem < gaps,
            idx > 0 ==> out@ == join_words(wv.take(idx as int), gaps as nat, extra as nat, base),
            idx == 0 ==> out@.len() == 0,
        decreases parts.len() - idx,
    {
        let ghost before = out@;
        if idx > 0 {
            assert(idx <= gaps);
            assert(rem < gaps);
            let size: usize = if idx - 1 >= gaps - rem {
                assert(rem > 0);
                assert(q + 2 <= usize::MAX);
                q + 2
            } else {
                assert(q < usize::MAX);
                q + 1
            };
            assert(size as nat == gap_size(idx - 1, gaps as nat, extra as nat)) by (nonlinear_arith)
                requires
                    q == extra / gaps,
                    rem == extra % gaps,
                    gaps > 0,
                    size == (if idx - 1 >= gaps - rem { q + 2 } else { q + 1 }),
            {
            }
            push_spaces(&mut out, size, base);
        }
        append_sc(&mut out, &parts[idx]);
        proof {
            let t = wv.take(idx + 1);
            assert(t.drop_last() =~= wv.take(idx as int));
            assert(t.last() == wv[idx as int]);
            if idx == 0 {
                assert(t.len() == 1);
                assert(out@ =~= t[0]);
            }
        }
        idx = idx + 1;
    }
    assert(wv.take(idx as int) =~= wv);
    out
}

/// The lines of a paragraph justified.
pub fn justify_lines_exec(lines: &Vec<Vec<SChar>>, width: usize, j: JustifyMethod, ov: OverflowMethod, base: Option<Style>) -> (r: Vec<Vec<SChar>>)
    ensures
        vv(r@) == justify_lines(vv(lines@), width as nat, j, ov, base),
{
    let ghost lv = vv(lines@);
    let mut out: Vec<Vec<SChar>> = Vec::new();
    let mut i: usize = 0;
    while i < lines.len()
        invariant
            i <= lines.len(),
            lv == vv(lines@),
            out@.len() == i,
            forall|k: int| 0 <= k < i ==> #[trigger] out@[k]@ == justify_lines(lv, width as nat, j, ov, base)[k],
        decreases lines.len() - i,
    {
        let l = if j == JustifyMethod::Full {
            if i + 1 < lines.len() {
                full_line_exec(&lines[i], width, base)
            } else {
                sub_schars(&lines[i], 0, lines[i].len())
            }
        } else {
            justify_line_exec(&lines[i], width, j, ov, base)
        };
        out.push(l);
        i = i + 1;
    }
    assert(vv(out@) =~= justify_lines(lv, width as nat, j, ov, base));
    out
}

} // verus!
