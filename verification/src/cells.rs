//! Cell width calculation for terminal display.
//!
//! CJK characters take 2 cells, most other characters take 1, some take 0.
use vstd::prelude::*;
use unicode_width::UnicodeWidthChar;
use unicode_width::UnicodeWidthStr;
use crate::strs::{owned, push_repeat, repeat_spec, str_chars};

verus! {

broadcast use vstd::string::group_string_axioms;

/// What `UnicodeWidthChar::width` returns for a character: `None` for control
/// characters, otherwise the number of columns given by the Unicode tables.
pub uninterp spec fn unicode_char_width(c: char) -> Option<usize>;

/// What `UnicodeWidthStr::width` returns for a string (not always the sum of the
/// character widths: some sequences such as emoji ligatures have their own width).
pub uninterp spec fn unicode_str_width(s: Seq<char>) -> usize;

/// Calls `UnicodeWidthChar::width`; the result is `unicode_char_width` of the character,
/// which the crate documents (and its lookup code shows) as one column for printable
/// ASCII and `None` for the control codes below the space.
#[verifier::external_body]
fn unicode_width_of_char(c: char) -> (r: Option<usize>)
    ensures
        r == unicode_char_width(c),
        (0x20 <= (c as u32) && (c as u32) < 0x7f) ==> r == Some(1usize),
        (c as u32) < 0x20 ==> r is None,
{
    UnicodeWidthChar::width(c)
}

/// Calls `UnicodeWidthStr::width`; the result is `unicode_str_width` of the string,
/// and (as the crate's lookup code shows: each printable ASCII character adds one
/// column and leaves no state for the next) the character count for a string of
/// printable ASCII alone.
#[verifier::external_body]
fn unicode_width_of_str(s: &str) -> (r: usize)
    ensures
        r == unicode_str_width(s@),
        (forall|i: int| 0 <= i < s@.len() ==> 0x20 <= (#[trigger] s@[i] as u32) && (s@[i] as u32) < 0x7f) ==> r == s@.len(),
{
    UnicodeWidthStr::width(s)
}

/// Cells taken by one character (control characters take none, printable ASCII one).
pub open spec fn cw(c: char) -> nat {
    if 0x20 <= (c as u32) && (c as u32) < 0x7f {
        1
    } else if (c as u32) < 0x20 {
        0
    } else {
        match unicode_char_width(c) {
            Some(w) => w as nat,
            None => 0,
        }
    }
}

/// A space takes one cell.
pub proof fn lemma_space_width()
    ensures
        cw(' ') == 1,
{
}

/// `n` spaces take `n` cells.
pub proof fn lemma_spaces_width(n: nat)
    ensures
        chars_width(repeat_spec(' ', n)) == n,
    decreases n,
{
    if n > 0 {
        lemma_spaces_width((n - 1) as nat);
        assert(repeat_spec(' ', n).drop_last() =~= repeat_spec(' ', (n - 1) as nat));
    }
}

/// Sum of the cell widths of the characters of `s`.
pub open spec fn chars_width(s: Seq<char>) -> nat
    decreases s.len(),
{
    if s.len() == 0 {
        0
    } else {
        chars_width(s.drop_last()) + cw(s.last())
    }
}

/// Calculate the display width of a string in terminal cells.
pub fn cell_len(text: &str) -> (r: usize)
    ensures
        r == unicode_str_width(text@),
{
    unicode_width_of_str(text)
}

/// Calculate the display width of a single character.
pub fn char_width(c: char) -> (r: usize)
    ensures
        r == cw(c),
{
    match unicode_width_of_char(c) {
        Some(w) => w,
        None => 0,
    }
}

/// The characters of `s` that fit in `budget` cells, scanning from the front;
/// when a character does not fit and some budget is left, a space stands for it.
pub open spec fn truncate_cells(s: Seq<char>, budget: nat) -> Seq<char>
    decreases s.len(),
{
    if s.len() == 0 {
        Seq::empty()
    } else if cw(s[0]) > budget {
        if budget > 0 {
            seq![' ']
        } else {
            Seq::empty()
        }
    } else {
        seq![s[0]] + truncate_cells(s.drop_first(), (budget - cw(s[0])) as nat)
    }
}

/// What `set_cell_size` returns: empty for width 0, the text unchanged when it
/// already has the width, padded with spaces when narrower, truncated when wider.
pub open spec fn set_cell_size_spec(text: Seq<char>, width: nat) -> Seq<char> {
    let tw = unicode_str_width(text) as nat;
    if width == 0 {
        Seq::empty()
    } else if tw == width {
        text
    } else if tw < width {
        text + repeat_spec(' ', (width - tw) as nat)
    } else {
        truncate_cells(text, width)
    }
}

/// The characters that fit in `budget` cells (a space stands for a character that
/// does not fit while some budget is left).
pub fn truncate_chars(chars: &[char], budget: usize) -> (r: Vec<char>)
    ensures
        r@ == truncate_cells(chars@, budget as nat),
{
    let mut result: Vec<char> = Vec::new();
    let mut current: usize = 0;
    let mut i: usize = 0;
    assert(chars@.skip(0) =~= chars@);
    assert(result@ + truncate_cells(chars@, budget as nat) =~= truncate_cells(chars@, budget as nat));
    while i < chars.len()
        invariant
            0 <= i <= chars.len(),
            current <= budget,
            result@ + truncate_cells(chars@.skip(i as int), (budget - current) as nat)
                == truncate_cells(chars@, budget as nat),
        decreases chars.len() - i,
    {
        let c = chars[i];
        let w = char_width(c);
        assert(chars@.skip(i as int)[0] == c);
        assert(chars@.skip(i as int).drop_first() == chars@.skip(i + 1));
        if w > budget - current {
            let ghost before = result@;
            if current < budget {
                result.push(' ');
                assert(truncate_cells(chars@.skip(i as int), (budget - current) as nat) =~= seq![' ']);
                assert(result@ =~= before + seq![' ']);
            } else {
                assert(truncate_cells(chars@.skip(i as int), (budget - current) as nat) =~= Seq::<char>::empty());
                assert(result@ =~= before + Seq::<char>::empty());
            }
            return result;
        }
        let ghost before = result@;
        assert(truncate_cells(chars@.skip(i as int), (budget - current) as nat)
            == seq![c] + truncate_cells(chars@.skip(i + 1), (budget - current - w) as nat));
        result.push(c);
        assert(result@ =~= before + seq![c]);
        current = current + w;
        i = i + 1;
    }
    assert(chars@.skip(i as int) =~= Seq::<char>::empty());
    assert(result@ + Seq::<char>::empty() =~= result@);
    result
}

/// Set the length of a string to fit within given number of cells.
///
/// If the text is shorter than `width`, it is padded with spaces.
/// If the text is longer, it is truncated. If truncation occurs at a
/// double-width character boundary, a space is added to reach the exact width.
pub fn set_cell_size(text: &str, width: usize) -> (r: String)
    ensures
        r@ == set_cell_size_spec(text@, width as nat),
{
    if width == 0 {
        return String::new();
    }
    let text_width = cell_len(text);
    if text_width == width {
        return owned(text);
    }
    if text_width < width {
        let mut result = owned(text);
        push_repeat(&mut result, ' ', width - text_width);
        return result;
    }
    let chars = str_chars(text);
    let mut result = String::new();
    let mut current: usize = 0;
    let mut i: usize = 0;
    assert(chars@.skip(0) =~= chars@);
    assert(result@ + truncate_cells(text@, width as nat) =~= truncate_cells(text@, width as nat));
    while i < chars.len()
        invariant
            0 <= i <= chars.len(),
            current <= width,
            width > 0,
            unicode_str_width(text@) > width,
            chars@ == text@,
            result@ + truncate_cells(chars@.skip(i as int), (width - current) as nat)
                == truncate_cells(text@, width as nat),
        decreases chars.len() - i,
    {
        let c = chars[i];
        let w = char_width(c);
        assert(chars@.skip(i as int)[0] == c);
        assert(chars@.skip(i as int).drop_first() == chars@.skip(i + 1));
        if w > width - current {
            let ghost before = result@;
            if current < width {
                result.push(' ');
                assert(truncate_cells(chars@.skip(i as int), (width - current) as nat) =~= seq![' ']);
                assert(result@ =~= before + seq![' ']);
            } else {
                assert(truncate_cells(chars@.skip(i as int), (width - current) as nat) =~= Seq::<char>::empty());
                assert(result@ =~= before + Seq::<char>::empty());
            }
            return result;
        }
        let ghost before = result@;
        assert(truncate_cells(chars@.skip(i as int), (width - current) as nat)
            == seq![c] + truncate_cells(chars@.skip(i + 1), (width - current - w) as nat));
        result.push(c);
        assert(result@ =~= before + seq![c]);
        current = current + w;
        i = i + 1;
    }
    assert(chars@.skip(i as int) =~= Seq::<char>::empty());
    assert(result@ + Seq::<char>::empty() =~= result@);
    result
}

/// Split text into individual characters, each as its own string.
pub fn split_graphemes(text: &str) -> (r: Vec<String>)
    ensures
        r@.len() == text@.len(),
        forall|i: int| 0 <= i < r@.len() ==> #[trigger] r@[i]@ == seq![text@[i]],
{
    let chars = str_chars(text);
    let mut result: Vec<String> = Vec::new();
    let mut i: usize = 0;
    while i < chars.len()
        invariant
            0 <= i <= chars.len(),
            chars@ == text@,
            result@.len() == i,
            forall|j: int| 0 <= j < i ==> #[trigger] result@[j]@ == seq![text@[j]],
        decreases chars.len() - i,
    {
        let mut s = String::new();
        s.push(chars[i]);
        result.push(s);
        i = i + 1;
    }
    result
}

/// The lines that `chop_cells` builds from `s`, continuing from `lines`
/// whose last line currently holds `total` cells.
pub open spec fn chop_from(s: Seq<char>, width: nat, lines: Seq<Seq<char>>, total: nat) -> Seq<Seq<char>>
    decreases s.len(),
{
    if s.len() == 0 {
        lines
    } else {
        let c = s[0];
        let w = cw(c);
        let last = lines.last();
        if total + w > width {
            if last.len() == 0 {
                chop_from(s.drop_first(), width, lines.update(lines.len() - 1, last.push(c)), w)
            } else {
                chop_from(s.drop_first(), width, lines.push(seq![c]), w)
            }
        } else {
            chop_from(s.drop_first(), width, lines.update(lines.len() - 1, last.push(c)), total + w)
        }
    }
}

/// What `chop_cells` returns.
pub open spec fn chop_cells_spec(s: Seq<char>, width: nat) -> Seq<Seq<char>> {
    if width == 0 {
        if s.len() == 0 {
            seq![Seq::<char>::empty()]
        } else {
            s.map(|_i: int, c: char| seq![c])
        }
    } else {
        chop_from(s, width, seq![Seq::<char>::empty()], 0)
    }
}

proof fn lemma_chop_from_grows(s: Seq<char>, width: nat, lines: Seq<Seq<char>>, total: nat)
    requires
        lines.len() > 0,
    ensures
        chop_from(s, width, lines, total).len() >= lines.len(),
    decreases s.len(),
{
    if s.len() > 0 {
        let c = s[0];
        let w = cw(c);
        let last = lines.last();
        if total + w > width {
            if last.len() == 0 {
                lemma_chop_from_grows(s.drop_first(), width, lines.update(lines.len() - 1, last.push(c)), w);
            } else {
                lemma_chop_from_grows(s.drop_first(), width, lines.push(seq![c]), w);
            }
        } else {
            lemma_chop_from_grows(s.drop_first(), width, lines.update(lines.len() - 1, last.push(c)), total + w);
        }
    }
}

/// Chopping always gives at least one line.
pub proof fn lemma_chop_nonempty(s: Seq<char>, width: nat)
    ensures
        chop_cells_spec(s, width).len() > 0,
{
    if width > 0 {
        lemma_chop_from_grows(s, width, seq![Seq::<char>::empty()], 0);
    }
}

/// Concatenation of a sequence of lines.
pub open spec fn flatten_lines(lines: Seq<Seq<char>>) -> Seq<char>
    decreases lines.len(),
{
    if lines.len() == 0 {
        Seq::empty()
    } else {
        flatten_lines(lines.drop_last()) + lines.last()
    }
}

/// Views of a vector of strings.
pub open spec fn string_views(v: Seq<String>) -> Seq<Seq<char>> {
    v.map(|_i: int, s: String| s@)
}

/// Split text into lines such that each line fits within the available (cell) width.
///
/// If `width` is 0, each character is placed on its own line.
pub fn chop_cells(text: &str, width: usize) -> (r: Vec<String>)
    ensures
        string_views(r@) == chop_cells_spec(text@, width as nat),
{
    let chars = str_chars(text);
    if width == 0 {
        let mut lines: Vec<String> = Vec::new();
        if chars.len() == 0 {
            lines.push(String::new());
            assert(string_views(lines@) =~= chop_cells_spec(text@, width as nat));
            return lines;
        }
        let mut i: usize = 0;
        while i < chars.len()
            invariant
                0 <= i <= chars.len(),
                chars@ == text@,
                lines@.len() == i,
                forall|j: int| 0 <= j < i ==> #[trigger] lines@[j]@ == seq![text@[j]],
            decreases chars.len() - i,
        {
            let mut s = String::new();
            s.push(chars[i]);
            lines.push(s);
            i = i + 1;
        }
        assert(string_views(lines@) =~= chop_cells_spec(text@, width as nat));
        return lines;
    }
    let mut lines: Vec<String> = Vec::new();
    lines.push(String::new());
    let mut current: String = String::new();
    let mut total: usize = 0;
    let mut cur_n: usize = 0;
    let mut i: usize = 0;
    // `lines` holds the finished lines followed by a placeholder; `current` is the last line.
    proof {
        assert(string_views(lines@).drop_last().push(current@) =~= seq![Seq::<char>::empty()]);
        assert(chars@.skip(0) =~= chars@);
    }
    while i < chars.len()
        invariant
            0 <= i <= chars.len(),
            chars@ == text@,
            lines@.len() >= 1,
            cur_n == current@.len(),
            cur_n <= i,
            chop_from(chars@.skip(i as int), width as nat, string_views(lines@).drop_last().push(current@), total as nat)
                == chop_cells_spec(text@, width as nat),
        decreases chars.len() - i,
    {
        let c = chars[i];
        let w = char_width(c);
        let ghost before = string_views(lines@).drop_last().push(current@);
        assert(chars@.skip(i as int)[0] == c);
        assert(chars@.skip(i as int).drop_first() == chars@.skip(i + 1));
        let doesnt_fit = if total > width { true } else { w > width - total };
        if doesnt_fit {
            if cur_n == 0 {
                current.push(c);
                cur_n = 1;
                assert(string_views(lines@).drop_last().push(current@) =~= before.update(before.len() - 1, before.last().push(c)));
            } else {
                let finished = current;
                let idx = lines.len() - 1;
                lines.set(idx, finished);
                lines.push(String::new());
                current = String::new();
                current.push(c);
                cur_n = 1;
                assert(string_views(lines@).drop_last().push(current@) =~= before.push(seq![c]));
            }
            total = w;
        } else {
            current.push(c);
            cur_n = cur_n + 1;
            total = total + w;
            assert(string_views(lines@).drop_last().push(current@) =~= before.update(before.len() - 1, before.last().push(c)));
        }
        i = i + 1;
    }
    let idx = lines.len() - 1;
    lines.set(idx, current);
    proof {
        assert(chars@.skip(i as int).len() == 0);
    }
    assert(string_views(lines@) =~= chop_from(chars@.skip(i as int), width as nat, string_views(lines@), total as nat));
    lines
}


/// The concatenation of lines whose last line is replaced.
proof fn lemma_flatten_update_last(lines: Seq<Seq<char>>, x: Seq<char>)
    requires
        lines.len() > 0,
    ensures
        flatten_lines(lines.update(lines.len() - 1, x)) == flatten_lines(lines.drop_last()) + x,
{
    let u = lines.update(lines.len() - 1, x);
    assert(u.drop_last() =~= lines.drop_last());
}

proof fn lemma_chop_from_keeps(s: Seq<char>, width: nat, lines: Seq<Seq<char>>, total: nat)
    requires
        lines.len() > 0,
    ensures
        flatten_lines(chop_from(s, width, lines, total)) == flatten_lines(lines) + s,
    decreases s.len(),
{
    if s.len() == 0 {
        assert(flatten_lines(lines) + s =~= flatten_lines(lines));
    } else {
        let c = s[0];
        let w = cw(c);
        let last = lines.last();
        let up = lines.update(lines.len() - 1, last.push(c));
        lemma_flatten_update_last(lines, last.push(c));
        assert(flatten_lines(up) =~= flatten_lines(lines) + seq![c]);
        let pushed = lines.push(seq![c]);
        assert(pushed.drop_last() =~= lines);
        assert(flatten_lines(pushed) =~= flatten_lines(lines) + seq![c]);
        if total + w > width {
            if last.len() == 0 {
                lemma_chop_from_keeps(s.drop_first(), width, up, w);
            } else {
                lemma_chop_from_keeps(s.drop_first(), width, pushed, w);
            }
        } else {
            lemma_chop_from_keeps(s.drop_first(), width, up, total + w);
        }
        assert(seq![c] + s.drop_first() =~= s);
        assert(flatten_lines(lines) + seq![c] + s.drop_first() =~= flatten_lines(lines) + s);
    }
}

proof fn lemma_flatten_singles(s: Seq<char>)
    ensures
        flatten_lines(s.map(|_i: int, c: char| seq![c])) == s,
    decreases s.len(),
{
    if s.len() > 0 {
        lemma_flatten_singles(s.drop_last());
        let m = s.map(|_i: int, c: char| seq![c]);
        assert(m.drop_last() =~= s.drop_last().map(|_i: int, c: char| seq![c]));
        assert(s.drop_last() + seq![s.last()] =~= s);
    }
}

/// Chopping text into lines loses and adds nothing: the lines joined are the text.
pub proof fn law_chop_cells_joins_back(s: Seq<char>, width: nat)
    ensures
        flatten_lines(chop_cells_spec(s, width)) == s,
{
    if width == 0 {
        if s.len() == 0 {
            let l = seq![Seq::<char>::empty()];
            assert(l.drop_last() =~= Seq::<Seq<char>>::empty());
            reveal_with_fuel(flatten_lines, 2);
            assert(flatten_lines(l) =~= s);
        } else {
            lemma_flatten_singles(s);
        }
    } else {
        let l = seq![Seq::<char>::empty()];
        assert(l.drop_last() =~= Seq::<Seq<char>>::empty());
        reveal_with_fuel(flatten_lines, 2);
        assert(flatten_lines(l) =~= Seq::<char>::empty());
        lemma_chop_from_keeps(s, width, l, 0);
        assert(Seq::<char>::empty() + s =~= s);
    }
}

} // verus!
