//! Columns: renderables laid out in as many columns as fit the width.
use vstd::prelude::*;
use crate::Renderable;
use crate::align::{AlignMethod, push_all};
use crate::console::{Console, ConsoleOptions, OptionsModel, lines_of_render};
use crate::group::Child;
use crate::measure::{Measurement, min_nat};
use crate::padding::{PaddingDimensions, unpack_spec};
use crate::segment::{Segment, SegView, ControlType, seg_view, segs_view, lines_view, max_line_width};
use crate::strs::{push_repeat, repeat_spec};
use crate::cells::unicode_str_width;
use crate::style::{Style, null_style};
use crate::text::Text;
use vstd::std_specs::convert::IntoSpec;

verus! {

/// The item shown in display cell `cell` (row by row, left to right) of a grid of
/// `cc` columns holding `n` items: row-first, items go left to right; column-first,
/// they fill the columns top to bottom, the first `n % cc` columns one item longer.
pub open spec fn cell_item(cell: nat, n: nat, cc: nat, column_first: bool) -> Option<nat> {
    if cc == 0 {
        None
    } else if column_first {
        let row = cell / cc;
        let col = cell % cc;
        let base = n / cc;
        let extra = n % cc;
        let col_len = if col < extra { base + 1 } else { base };
        if row >= col_len {
            None
        } else {
            let before: int = if col <= extra { (col * (base + 1)) as int } else { (extra * (base + 1) + (col - extra) * base) as int };
            if before + row < n { Some((before + row) as nat) } else { None }
        }
    } else if cell < n {
        Some(cell)
    } else {
        None
    }
}

/// The number of display cells of a grid of `cc` columns holding `n` items: whole rows.
pub open spec fn cell_count(n: nat, cc: nat) -> nat {
    if cc == 0 { 0 } else { (((n + cc - 1) as nat / cc) * cc) as nat }
}

/// The items of each display cell, in display order.
pub open spec fn cell_items(n: nat, cc: nat, column_first: bool) -> Seq<Option<nat>> {
    Seq::new(cell_count(n, cc), |c: int| cell_item(c as nat, n, cc, column_first))
}

proof fn lemma_cell_bounds(n: int, cc: int, base: int, extra: int, col: int, row: int)
    requires
        cc > 0,
        0 <= col < cc,
        0 <= extra < cc,
        base >= 0,
        n == cc * base + extra,
        0 <= row,
        row < (if col < extra { base + 1 } else { base }),
    ensures
        col <= extra ==> col * (base + 1) + row <= n + cc,
        col > extra ==> extra * (base + 1) + (col - extra) * base + row <= n,
{
    if col <= extra {
        assert(col * (base + 1) + row <= cc * base + cc) by (nonlinear_arith)
            requires
                col < cc,
                row <= base,
                base >= 0,
                col >= 0,
        ;
    } else {
        assert(extra * (base + 1) + (col - extra) * base + row == col * base + extra + row) by (nonlinear_arith);
        assert((col + 1) * base <= cc * base) by (nonlinear_arith)
            requires
                col + 1 <= cc,
                base >= 0,
        ;
        assert((col + 1) * base == col * base + base) by (nonlinear_arith);
    }
}

fn cell_item_exec(cell: usize, n: usize, cc: usize, column_first: bool) -> (r: Option<usize>)
    requires
        cell < n + cc,
        n + cc <= usize::MAX,
    ensures
        match r {
            Some(i) => cell_item(cell as nat, n as nat, cc as nat, column_first) == Some(i as nat),
            None => cell_item(cell as nat, n as nat, cc as nat, column_first) is None,
        },
{
    if cc == 0 {
        return None;
    }
    if column_first {
        let row = cell / cc;
        let col = cell % cc;
        let base = n / cc;
        let extra = n % cc;
        let col_len = if col < extra { base + 1 } else { base };
        if row >= col_len {
            None
        } else {
            proof {
                vstd::arithmetic::div_mod::lemma_fundamental_div_mod(n as int, cc as int);
                lemma_cell_bounds(n as int, cc as int, base as int, extra as int, col as int, row as int);
            }
            let before: usize = if col <= extra { col * (base + 1) } else { extra * (base + 1) + (col - extra) * base };
            if before + row < n { Some(before + row) } else { None }
        }
    } else if cell < n {
        Some(cell)
    } else {
        None
    }
}

/// The sum of widths.
pub open spec fn sum_widths(ws: Seq<nat>) -> nat
    decreases ws.len(),
{
    if ws.len() == 0 { 0 } else { sum_widths(ws.drop_last()) + ws.last() }
}

/// The total width of columns with a gap between each two.
pub open spec fn columns_total(colw: Seq<nat>, gap: nat) -> nat {
    if colw.len() == 0 { 0 } else { sum_widths(colw) + gap * (colw.len() - 1) as nat }
}

/// The width of the item in a display cell (zero for an empty cell).
pub open spec fn item_width(ws: Seq<nat>, item: Option<nat>) -> nat {
    match item {
        Some(i) => if i < ws.len() { ws[i as int] } else { 0 },
        None => 0,
    }
}

/// The column widths after display cell `k` of a grid of `cc` columns, from those
/// before it: its column widened to its item, or a new column when first reached.
pub open spec fn widen(colw: Seq<nat>, k: nat, cc: nat, w: nat) -> Seq<nat> {
    let col = k % cc;
    if col >= colw.len() {
        colw.push(w)
    } else {
        colw.update(col as int, if colw[col as int] >= w { colw[col as int] } else { w })
    }
}

/// A pass over the display cells from cell `k` with the column widths so far: the
/// number of columns to try next (one less than those reached, at least one) at the
/// first cell where the columns no longer fit `mw`, or none when all fit.
pub open spec fn fit_pass(ws: Seq<nat>, items: Seq<Option<nat>>, cc: nat, mw: nat, gap: nat, k: nat, colw: Seq<nat>) -> Option<nat>
    decreases items.len() - k,
{
    if k >= items.len() || cc == 0 {
        None
    } else {
        let c2 = widen(colw, k, cc, item_width(ws, items[k as int]));
        if columns_total(c2, gap) > mw {
            Some(if c2.len() >= 2 { (c2.len() - 1) as nat } else { 1 })
        } else {
            fit_pass(ws, items, cc, mw, gap, k + 1, c2)
        }
    }
}

/// The number of columns for `n` items of widths `ws` in `mw` cells with `gap` cells
/// between columns, trying `cc` columns and fewer in turn.
pub open spec fn auto_count(ws: Seq<nat>, n: nat, mw: nat, gap: nat, column_first: bool, cc: nat) -> nat
    decreases cc,
{
    if cc <= 1 {
        cc
    } else {
        match fit_pass(ws, cell_items(n, cc, column_first), cc, mw, gap, 0, Seq::empty()) {
            None => cc,
            Some(c2) => if c2 < cc { auto_count(ws, n, mw, gap, column_first, c2) } else { cc },
        }
    }
}

/// Widths by their values.
pub open spec fn nats(v: Seq<usize>) -> Seq<nat> {
    v.map_values(|x: usize| x as nat)
}

proof fn lemma_widen_len(colw: Seq<nat>, k: nat, cc: nat, w: nat)
    requires
        cc > 0,
        colw.len() == if k < cc { k } else { cc },
    ensures
        widen(colw, k, cc, w).len() == if k + 1 < cc { k + 1 } else { cc },
{
    if k < cc {
        assert(k % cc == k) by (nonlinear_arith)
            requires
                k < cc,
        ;
    } else {
        assert(k % cc < cc) by (nonlinear_arith)
            requires
                cc > 0,
        ;
    }
}

proof fn lemma_sum_update(ws: Seq<nat>, i: int, v: nat)
    requires
        0 <= i < ws.len(),
    ensures
        sum_widths(ws.update(i, v)) == sum_widths(ws) - ws[i] + v,
    decreases ws.len(),
{
    if i == ws.len() - 1 {
        assert(ws.update(i, v).drop_last() =~= ws.drop_last());
    } else {
        lemma_sum_update(ws.drop_last(), i, v);
        assert(ws.update(i, v).drop_last() =~= ws.drop_last().update(i, v));
    }
}

proof fn lemma_fit_pass_pos(ws: Seq<nat>, items: Seq<Option<nat>>, cc: nat, mw: nat, gap: nat, k: nat, colw: Seq<nat>)
    ensures
        fit_pass(ws, items, cc, mw, gap, k, colw) matches Some(c) ==> c >= 1 && c < colw.len() + (items.len() - k) + 1,
    decreases items.len() - k,
{
    if k < items.len() && cc != 0 {
        let c2 = widen(colw, k, cc, item_width(ws, items[k as int]));
        if columns_total(c2, gap) <= mw {
            lemma_fit_pass_pos(ws, items, cc, mw, gap, k + 1, c2);
        }
    }
}

/// One fitting pass for `cc` columns (see `fit_pass`).
fn fit_pass_exec(ws: &Vec<usize>, n: usize, cc: usize, mw: usize, gap: usize, column_first: bool) -> (r: Option<usize>)
    requires
        cc >= 1,
        n + cc <= usize::MAX,
    ensures
        match r {
            Some(c) => fit_pass(nats(ws@), cell_items(n as nat, cc as nat, column_first), cc as nat, mw as nat, gap as nat, 0, Seq::empty()) == Some(c as nat),
            None => fit_pass(nats(ws@), cell_items(n as nat, cc as nat, column_first), cc as nat, mw as nat, gap as nat, 0, Seq::empty()) is None,
        },
{
    let ghost items = cell_items(n as nat, cc as nat, column_first);
    let ghost wv = nats(ws@);
    let rows = (n + cc - 1) / cc;
    proof {
        assert(rows * cc <= n + cc) by (nonlinear_arith)
            requires
                rows == ((n + cc - 1) as int) / (cc as int),
                cc >= 1,
                n >= 0,
        ;
    }
    let cells: usize = rows * cc;
    assert(cells == items.len());
    let mut colw: Vec<usize> = Vec::new();
    let mut total: u128 = 0;
    assert(nats(colw@) =~= Seq::<nat>::empty());
    let mut k: usize = 0;
    while k < cells
        invariant
            cells == items.len(),
            items == cell_items(n as nat, cc as nat, column_first),
            wv == nats(ws@),
            cc >= 1,
            n + cc <= usize::MAX,
            cells <= n + cc,
            k <= cells,
            colw@.len() == if k < cc { k as nat } else { cc as nat },
            total == columns_total(nats(colw@), gap as nat),
            total <= mw,
            fit_pass(wv, items, cc as nat, mw as nat, gap as nat, 0, Seq::empty())
                == fit_pass(wv, items, cc as nat, mw as nat, gap as nat, k as nat, nats(colw@)),
        decreases cells - k,
    {
        assert(k < n + cc);
        let item = cell_item_exec(k, n, cc, column_first);
        assert(items[k as int] == cell_item(k as nat, n as nat, cc as nat, column_first));
        let w: usize = match item {
            Some(i) => if i < ws.len() { ws[i] } else { 0 },
            None => 0,
        };
        assert(w as nat == item_width(wv, items[k as int]));
        let col = k % cc;
        let ghost before = nats(colw@);
        proof {
            lemma_widen_len(before, k as nat, cc as nat, w as nat);
        }
        if col >= colw.len() {
            let add: u128 = if colw.len() > 0 { (gap as u128) + (w as u128) } else { w as u128 };
            proof {
                if before.len() > 0 {
                    assert(before.push(w as nat).drop_last() =~= before);
                    let g = gap as nat;
                    let l = before.len();
                    assert(g * l == g * ((l - 1) as nat) + g) by (nonlinear_arith)
                        requires
                            l >= 1,
                    ;
                    assert(columns_total(before.push(w as nat), g) == columns_total(before, g) + g + w);
                } else {
                    assert(before.push(w as nat).drop_last() =~= before);
                    assert(sum_widths(before) == 0);
                    assert(before.push(w as nat).last() == w as nat);
                    assert(sum_widths(before.push(w as nat)) == w);
                    assert((gap as nat) * 0 == 0) by (nonlinear_arith);
                    assert(columns_total(before.push(w as nat), gap as nat) == w);
                }
            }
            total = total + add;
            colw.push(w);
            assert(nats(colw@) =~= before.push(w as nat));
        } else {
            let old = colw[col];
            if w > old {
                proof {
                    lemma_sum_update(before, col as int, w as nat);
                }
                assert(old as nat == before[col as int]);
                assert(columns_total(before.update(col as int, w as nat), gap as nat) == columns_total(before, gap as nat) + (w - old));
                total = total + ((w - old) as u128);
                colw.set(col, w);
                assert(nats(colw@) =~= before.update(col as int, w as nat));
            } else {
                assert(before.update(col as int, before[col as int]) =~= before);
            }
        }
        assert(nats(colw@) == widen(before, k as nat, cc as nat, w as nat));
        if total > mw as u128 {
            let c = if colw.len() >= 2 { colw.len() - 1 } else { 1 };
            return Some(c);
        }
        k = k + 1;
    }
    None
}

/// The number of columns for items of widths `ws` (see `auto_count`), from as many
/// columns as items.
fn auto_count_exec(ws: &Vec<usize>, n: usize, mw: usize, gap: usize, column_first: bool) -> (r: usize)
    requires
        n < usize::MAX / 2,
    ensures
        r == auto_count(nats(ws@), n as nat, mw as nat, gap as nat, column_first, if n >= 1 { n as nat } else { 1 }),
{
    let mut cc: usize = if n >= 1 { n } else { 1 };
    let ghost start: nat = cc as nat;
    while cc > 1
        invariant_except_break
            1 <= cc <= if n >= 1 { n } else { 1 },
            n < usize::MAX / 2,
            auto_count(nats(ws@), n as nat, mw as nat, gap as nat, column_first, start)
                == auto_count(nats(ws@), n as nat, mw as nat, gap as nat, column_first, cc as nat),
        ensures
            auto_count(nats(ws@), n as nat, mw as nat, gap as nat, column_first, start) == cc,
        decreases cc,
    {
        proof {
            lemma_fit_pass_pos(nats(ws@), cell_items(n as nat, cc as nat, column_first), cc as nat, mw as nat, gap as nat, 0, Seq::empty());
        }
        match fit_pass_exec(ws, n, cc, mw, gap, column_first) {
            None => {
                break;
            },
            Some(c2) => {
                if c2 < cc {
                    cc = c2;
                } else {
                    break;
                }
            },
        }
    }
    cc
}

/// A run of `n` spaces, unstyled.
pub open spec fn blank_seg(n: nat) -> SegView {
    (repeat_spec(' ', n), None::<Style>, None::<ControlType>)
}

/// The newline segment.
pub open spec fn nl_seg() -> SegView {
    (seq!['\n'], None::<Style>, None::<ControlType>)
}

/// Line `k` of a cell of width `w` (a blank line beyond the cell's lines).
pub open spec fn cell_line(cell: Seq<Seq<SegView>>, k: int, w: nat) -> Seq<SegView> {
    if 0 <= k < cell.len() { cell[k] } else { seq![blank_seg(w)] }
}

/// Line `k` of the first `j` cells of a row, a gap between each two.
pub open spec fn row_line_upto(row: Seq<Seq<Seq<SegView>>>, k: int, widths: Seq<nat>, gap: nat, j: nat) -> Seq<SegView>
    decreases j,
{
    if j == 0 {
        Seq::empty()
    } else {
        let jj = (j - 1) as int;
        row_line_upto(row, k, widths, gap, (j - 1) as nat)
            + (if jj > 0 && gap > 0 { seq![blank_seg(gap)] } else { Seq::empty() })
            + cell_line(row[jj], k, if jj < widths.len() { widths[jj] } else { 0 })
    }
}

/// The number of lines of the tallest cell of a row.
pub open spec fn row_height(row: Seq<Seq<Seq<SegView>>>) -> nat
    decreases row.len(),
{
    if row.len() == 0 {
        0
    } else {
        let h = row_height(row.drop_last());
        if row.last().len() > h { row.last().len() } else { h }
    }
}

/// The first `k` lines of a row, each ended by a newline.
pub open spec fn row_lines_upto(row: Seq<Seq<Seq<SegView>>>, widths: Seq<nat>, gap: nat, k: nat) -> Seq<SegView>
    decreases k,
{
    if k == 0 {
        Seq::empty()
    } else {
        row_lines_upto(row, widths, gap, (k - 1) as nat) + row_line_upto(row, (k - 1) as int, widths, gap, row.len())
            + seq![nl_seg()]
    }
}

/// `n` blank lines of width `w`.
pub open spec fn blank_lines(n: nat, w: nat) -> Seq<SegView>
    decreases n,
{
    if n == 0 { Seq::empty() } else { blank_lines((n - 1) as nat, w) + seq![blank_seg(w), nl_seg()] }
}

/// The first `i` rows of a grid, `leading` blank lines of width `tw` between each two.
pub open spec fn grid_upto(rows: Seq<Seq<Seq<Seq<SegView>>>>, widths: Seq<nat>, gap: nat, leading: nat, tw: nat, i: nat) -> Seq<SegView>
    decreases i,
{
    if i == 0 {
        Seq::empty()
    } else {
        let ii = (i - 1) as int;
        grid_upto(rows, widths, gap, leading, tw, (i - 1) as nat)
            + (if ii > 0 { blank_lines(leading, tw) } else { Seq::empty() })
            + row_lines_upto(rows[ii], widths, gap, row_height(rows[ii]))
    }
}

fn blank_segment(n: usize) -> (r: Segment)
    ensures
        seg_view(r) == blank_seg(n as nat),
{
    let mut t = String::new();
    push_repeat(&mut t, ' ', n);
    Segment { text: t, style: None, control: None, link: None }
}

fn push_one(out: &mut Vec<Segment>, s: Segment)
    ensures
        segs_view(final(out)@) == segs_view(old(out)@).push(seg_view(s)),
{
    crate::align::push_seg(out, s);
}

/// Lay out rows of cells (each cell its lines) in columns of the given widths, `gap`
/// spaces between columns and `leading` blank lines of width `tw` between rows.
fn assemble_grid(rows: &Vec<Vec<Vec<Vec<Segment>>>>, widths: &Vec<usize>, gap: usize, leading: usize, tw: usize) -> (r: Vec<Segment>)
    ensures
        segs_view(r@) == grid_upto(rows_view(rows@), nats(widths@), gap as nat, leading as nat, tw as nat, rows@.len()),
{
    let ghost rv = rows_view(rows@);
    let ghost wv = nats(widths@);
    let mut out: Vec<Segment> = Vec::new();
    let mut i: usize = 0;
    while i < rows.len()
        invariant
            i <= rows@.len(),
            rv == rows_view(rows@),
            wv == nats(widths@),
            segs_view(out@) == grid_upto(rv, wv, gap as nat, leading as nat, tw as nat, i as nat),
        decreases rows.len() - i,
    {
        let ghost b0 = segs_view(out@);
        if i > 0 {
            let mut q: usize = 0;
            while q < leading
                invariant
                    q <= leading,
                    segs_view(out@) == b0 + blank_lines(q as nat, tw as nat),
                decreases leading - q,
            {
                push_one(&mut out, blank_segment(tw));
                push_one(&mut out, Segment::line());
                q = q + 1;
            }
        } else {
            assert(segs_view(out@) =~= b0 + Seq::<SegView>::empty());
        }
        let ghost b1 = segs_view(out@);
        let row = &rows[i];
        let ghost row_v = rv[i as int];
        let mut h: usize = 0;
        let mut j: usize = 0;
        while j < row.len()
            invariant
                j <= row@.len(),
                i < rows@.len(),
                *row == rows@[i as int],
                row_v == rows_view(rows@)[i as int],
                row_v.len() == row@.len(),
                h == row_height(row_v.take(j as int)),
            decreases row.len() - j,
        {
            assert(row_v.take(j + 1).drop_last() =~= row_v.take(j as int));
            assert(row_v[j as int].len() == row@[j as int]@.len());
            if row[j].len() > h {
                h = row[j].len();
            }
            j = j + 1;
        }
        assert(row_v.take(j as int) =~= row_v);
        let mut k: usize = 0;
        while k < h
            invariant
                k <= h,
                h == row_height(row_v),
                i < rows@.len(),
                *row == rows@[i as int],
                row_v == rows_view(rows@)[i as int],
                row_v.len() == row@.len(),
                wv == nats(widths@),
                segs_view(out@) == b1 + row_lines_upto(row_v, wv, gap as nat, k as nat),
            decreases h - k,
        {
            let ghost b2 = segs_view(out@);
            let mut j2: usize = 0;
            while j2 < row.len()
                invariant
                    j2 <= row@.len(),
                    k < h,
                    i < rows@.len(),
                    *row == rows@[i as int],
                    row_v == rows_view(rows@)[i as int],
                    row_v.len() == row@.len(),
                    wv == nats(widths@),
                    segs_view(out@) == b2 + row_line_upto(row_v, k as int, wv, gap as nat, j2 as nat),
                decreases row.len() - j2,
            {
                let ghost b3 = segs_view(out@);
                if j2 > 0 && gap > 0 {
                    push_one(&mut out, blank_segment(gap));
                }
                let ghost b4 = segs_view(out@);
                let w: usize = if j2 < widths.len() { widths[j2] } else { 0 };
                if k < row[j2].len() {
                    push_all(&mut out, &row[j2][k]);
                    assert(row_v[j2 as int][k as int] == lines_view(row@[j2 as int]@)[k as int]);
                } else {
                    push_one(&mut out, blank_segment(w));
                }
                assert(segs_view(out@) =~= b3 + (if j2 > 0 && gap > 0 { seq![blank_seg(gap as nat)] } else { Seq::empty() })
                    + cell_line(row_v[j2 as int], k as int, if (j2 as int) < wv.len() { wv[j2 as int] } else { 0 }));
                j2 = j2 + 1;
            }
            push_one(&mut out, Segment::line());
            k = k + 1;
        }
        i = i + 1;
    }
    out
}

/// Rows of cells of lines by their values.
pub open spec fn rows_view(rows: Seq<Vec<Vec<Vec<Segment>>>>) -> Seq<Seq<Seq<Seq<SegView>>>> {
    rows.map_values(|row: Vec<Vec<Vec<Segment>>>| row@.map_values(|cell: Vec<Vec<Segment>>| lines_view(cell@)))
}

/// The width of column `j` of a grid of `cc` columns: the widest item shown in it.
pub open spec fn column_width_upto(ws: Seq<nat>, items: Seq<Option<nat>>, cc: nat, j: nat, c: nat) -> nat
    decreases c,
{
    if c == 0 {
        0
    } else {
        let prev = column_width_upto(ws, items, cc, j, (c - 1) as nat);
        let cell = (c - 1) as nat;
        if cc > 0 && cell % cc == j && cell < items.len() && item_width(ws, items[cell as int]) > prev {
            item_width(ws, items[cell as int])
        } else {
            prev
        }
    }
}

/// The settings of columns.
pub struct ColumnsModel {
    /// How many items there are.
    pub len: nat,
    /// The fixed width of each column, if any.
    pub width: Option<usize>,
    /// Padding (top, right, bottom, left).
    pub padding: (usize, usize, usize, usize),
    /// Whether the grid fills the available width.
    pub expand: bool,
    /// Whether all columns are as wide as the widest item.
    pub equal: bool,
    /// Whether items fill columns top to bottom.
    pub column_first: bool,
    /// Whether columns run from the right.
    pub right_to_left: bool,
    /// How items sit in their column.
    pub align: Option<AlignMethod>,
    /// The title, if any.
    pub title: Option<Seq<char>>,
}

/// Renderables laid out in as many columns as fit.
pub struct Columns {
    renderables: Vec<Child>,
    width: Option<usize>,
    padding: (usize, usize, usize, usize),
    expand: bool,
    equal: bool,
    column_first: bool,
    right_to_left: bool,
    align: Option<AlignMethod>,
    title: Option<Text>,
}

impl View for Columns {
    type V = ColumnsModel;

    closed spec fn view(&self) -> ColumnsModel {
        ColumnsModel {
            len: self.renderables@.len(),
            width: self.width,
            padding: self.padding,
            expand: self.expand,
            equal: self.equal,
            column_first: self.column_first,
            right_to_left: self.right_to_left,
            align: self.align,
            title: match self.title { Some(t) => Some(t@.plain), None => None },
        }
    }
}

/// The settings of new columns of `n` items: no fixed width, one space of padding left and
/// right, row-first, left to right.
pub open spec fn default_columns(n: nat) -> ColumnsModel {
    ColumnsModel {
        len: n,
        width: None,
        padding: (0, 1, 0, 1),
        expand: false,
        equal: false,
        column_first: false,
        right_to_left: false,
        align: None,
        title: None,
    }
}

impl Default for Columns {
    fn default() -> (r: Self)
        ensures
            r@ == default_columns(0),
    {
        Columns {
            renderables: Vec::new(),
            width: None,
            padding: (0, 1, 0, 1),
            expand: false,
            equal: false,
            column_first: false,
            right_to_left: false,
            align: None,
            title: None,
        }
    }
}

/// The number of columns: for a fixed width, as many as fit (at least one); else the
/// search of `auto_count` from as many columns as items.
pub open spec fn column_count_spec(m: ColumnsModel, mw: nat, ws: Seq<nat>) -> nat {
    let gap: nat = if m.padding.3 >= m.padding.1 { m.padding.3 as nat } else { m.padding.1 as nat };
    match m.width {
        Some(cw) => {
            let d: nat = if cw + gap > usize::MAX { usize::MAX as nat } else { (cw + gap) as nat };
            if d == 0 { m.len } else if mw / d >= 1 { mw / d } else { 1 }
        },
        None => if m.len >= usize::MAX / 2 { 1 } else { auto_count(ws, m.len, mw, gap, m.column_first, if m.len >= 1 { m.len } else { 1 }) },
    }
}

impl Columns {

    /// The children, in order.
    pub closed spec fn children(&self) -> Seq<Child> {
        self.renderables@
    }
    /// Columns of the given renderables.
    pub fn new(renderables: Vec<Box<dyn Renderable>>) -> (r: Self)
        ensures
            r@ == default_columns(renderables@.len()),
    {
        let d = Self::default();
        Columns { renderables: crate::group::hold_all_boxed(renderables), ..d }
    }

    /// Columns of no renderables.
    pub fn empty() -> (r: Self)
        ensures
            r@ == default_columns(0),
    {
        Self::default()
    }

    /// Add a renderable.
    pub fn add(&mut self, renderable: Box<dyn Renderable>)
        ensures
            final(self)@ == (ColumnsModel { len: old(self)@.len + 1, ..old(self)@ }),
    {
        self.renderables.push(Child::new(renderable));
    }

    /// Add a string as plain text.
    pub fn add_str(&mut self, text: &str)
        ensures
            final(self)@ == (ColumnsModel { len: old(self)@.len + 1, ..old(self)@ }),
    {
        let b: Box<dyn Renderable> = Box::new(Text::plain(text));
        self.renderables.push(Child::new(b));
    }

    /// Columns of a fixed width.
    pub fn with_width(self, width: usize) -> (r: Self)
        ensures
            r@ == (ColumnsModel { width: Some(width), ..self@ }),
    {
        Columns { width: Some(width), ..self }
    }

    /// Columns with padding given in one of the CSS forms.
    pub fn with_padding<P: Into<PaddingDimensions>>(self, padding: P) -> (r: Self)
        ensures
            P::obeys_into_spec() ==> r@ == (ColumnsModel { padding: unpack_spec(padding.into_spec()), ..self@ }),
    {
        let d: PaddingDimensions = padding.into();
        Columns { padding: d.unpack(), ..self }
    }

    /// Columns filling the available width or not.
    pub fn with_expand(self, expand: bool) -> (r: Self)
        ensures
            r@ == (ColumnsModel { expand, ..self@ }),
    {
        Columns { expand, ..self }
    }

    /// Columns all as wide as the widest item or not.
    pub fn with_equal(self, equal: bool) -> (r: Self)
        ensures
            r@ == (ColumnsModel { equal, ..self@ }),
    {
        Columns { equal, ..self }
    }

    /// Items filling columns top to bottom or not.
    pub fn with_column_first(self, column_first: bool) -> (r: Self)
        ensures
            r@ == (ColumnsModel { column_first, ..self@ }),
    {
        Columns { column_first, ..self }
    }

    /// Columns running from the right or not.
    pub fn with_right_to_left(self, right_to_left: bool) -> (r: Self)
        ensures
            r@ == (ColumnsModel { right_to_left, ..self@ }),
    {
        Columns { right_to_left, ..self }
    }

    /// Items placed in their column in the given way.
    pub fn with_align(self, align: AlignMethod) -> (r: Self)
        ensures
            r@ == (ColumnsModel { align: Some(align), ..self@ }),
    {
        Columns { align: Some(align), ..self }
    }

    /// Columns under a title.
    pub fn with_title(self, title: &str) -> (r: Self)
        ensures
            r@ == (ColumnsModel { title: Some(title@), ..self@ }),
    {
        Columns { title: Some(Text::plain(title)), ..self }
    }

    /// The items.
    pub fn renderables(&self) -> (r: &[Child])
        ensures
            r@.len() == self@.len,
    {
        self.renderables.as_slice()
    }

    /// Whether the grid fills the available width.
    pub fn expand(&self) -> (r: bool)
        ensures
            r == self@.expand,
    {
        self.expand
    }

    /// Whether all columns are equally wide.
    pub fn equal(&self) -> (r: bool)
        ensures
            r == self@.equal,
    {
        self.equal
    }

    /// The title.
    pub fn title(&self) -> (r: Option<String>)
        ensures
            match r { Some(t) => self@.title == Some(t@), None => self@.title is None },
    {
        match &self.title {
            Some(t) => Some(t.plain_text()),
            None => None,
        }
    }

    /// The number of columns for items of widths `ws` in `mw` cells.
    fn column_count(&self, ws: &Vec<usize>, mw: usize) -> (r: usize)
        ensures
            r == column_count_spec(self@, mw as nat, nats(ws@)),
    {
        let (_top, right, _bottom, left) = self.padding;
        let gap = if left >= right { left } else { right };
        let n = self.renderables.len();
        match self.width {
            Some(cw) => {
                let d = cw.saturating_add(gap);
                if d == 0 {
                    n
                } else if mw / d >= 1 {
                    mw / d
                } else {
                    1
                }
            },
            None => {
                if n >= usize::MAX / 2 {
                    1
                } else {
                    auto_count_exec(ws, n, mw, gap, self.column_first)
                }
            },
        }
    }
}

/// A title line: the title centered in `tw` cells (its cell width taken as `tlen`),
/// then a newline.
pub open spec fn title_line(title: Seq<char>, tlen: nat, tw: nat) -> Seq<SegView> {
    let excess: nat = if tw > tlen { (tw - tlen) as nat } else { 0 };
    let l = excess / 2;
    seq![blank_seg(l), (title, None::<Style>, None::<ControlType>), blank_seg((excess - l) as nat), nl_seg()]
}

/// The gap between columns: the larger of the left and right padding.
pub open spec fn gap_of(m: ColumnsModel) -> nat {
    if m.padding.3 >= m.padding.1 { m.padding.3 as nat } else { m.padding.1 as nat }
}

/// The blank lines between rows: the top and bottom padding together.
pub open spec fn leading_of(m: ColumnsModel) -> nat {
    if m.padding.0 + m.padding.2 > usize::MAX { usize::MAX as nat } else { (m.padding.0 + m.padding.2) as nat }
}

/// The output of columns: the title line (when there is a title), then the grid.
pub open spec fn columns_out_spec(title: Option<Seq<char>>, tlen: nat, rows: Seq<Seq<Seq<Seq<SegView>>>>, widths: Seq<nat>, gap: nat, leading: nat, tw: nat) -> Seq<SegView> {
    (match title { Some(t) => title_line(t, tlen, tw), None => Seq::empty() })
        + grid_upto(rows, widths, gap, leading, tw, rows.len())
}

/// A line of `cw` cells placed in a column of `w` cells: as it is when it fills the
/// column, else with blanks after it (left), before it (right) or split round it
/// (centre, the smaller half before).
pub open spec fn placed_line(line: Seq<SegView>, cw: nat, w: nat, a: AlignMethod) -> Seq<SegView> {
    if cw >= w {
        line
    } else {
        let ex = (w - cw) as nat;
        match a {
            AlignMethod::Left => line + seq![blank_seg(ex)],
            AlignMethod::Center => (if ex / 2 > 0 { seq![blank_seg(ex / 2)] } else { Seq::empty() }) + line
                + (if ex - ex / 2 > 0 { seq![blank_seg((ex - ex / 2) as nat)] } else { Seq::empty() }),
            AlignMethod::Right => seq![blank_seg(ex)] + line,
        }
    }
}

/// Lines each placed in a column (see `placed_line`).
pub open spec fn placed_lines(lines: Seq<Seq<SegView>>, cw: nat, w: nat, a: AlignMethod) -> Seq<Seq<SegView>> {
    lines.map_values(|l: Seq<SegView>| placed_line(l, cw, w, a))
}

/// The width a cell's content is rendered in when placed in `avail` cells: as wide as
/// it measures, at most `avail`.
pub open spec fn placed_width(child: Child, o: OptionsModel, avail: nat) -> usize {
    let m = child.measured(o).maximum;
    if (m as nat) < avail { m } else { avail as usize }
}

/// A child rendered as wide as it measures (at most `avail`) and its lines placed in
/// `avail` cells.
pub open spec fn placed_cell(child: Child, o: OptionsModel, avail: nat, a: AlignMethod) -> Seq<Seq<SegView>> {
    let cw = placed_width(child, o, avail);
    placed_lines(
        lines_of_render(child.rendered(OptionsModel { min_width: cw, max_width: cw, ..o }), None, cw as nat, true, false),
        cw as nat, avail, a)
}

/// The lines of the cell showing `item` in a column `w` cells wide: none for no item;
/// the item rendered at the column width when neither alignment nor equal widths are
/// asked; else placed (left unless an alignment is given) in the column, or in the first
/// item's width when widths are equal.
pub open spec fn cell_spec(ch: Seq<Child>, align: Option<AlignMethod>, equal: bool, item: Option<nat>, w: nat, fw: nat, o: OptionsModel) -> Seq<Seq<SegView>> {
    match item {
        None => Seq::empty(),
        Some(i) => if i >= ch.len() {
            Seq::empty()
        } else if align is None && !equal {
            lines_of_render(ch[i as int].rendered(OptionsModel { min_width: w as usize, max_width: w as usize, ..o }), None, w, true, false)
        } else {
            let a = match align { Some(x) => x, None => AlignMethod::Left };
            placed_cell(ch[i as int], o, if equal { fw } else { w }, a)
        },
    }
}

/// The largest of some widths (0 for none).
pub open spec fn seq_max(s: Seq<nat>) -> nat
    decreases s.len(),
{
    if s.len() == 0 { 0 } else { let m = seq_max(s.drop_last()); if s.last() > m { s.last() } else { m } }
}

/// The items' measured widths; all the widest when widths are equal.
pub open spec fn item_ws(ch: Seq<Child>, o: OptionsModel, equal: bool) -> Seq<nat> {
    let ms = ch.map_values(|c: Child| c.measured(o).maximum as nat);
    if equal { Seq::new(ms.len(), |i: int| seq_max(ms)) } else { ms }
}

/// The width of each of `cc` columns after the first `c` display cells: the widest item
/// shown in it.
pub open spec fn col_fold(ws: Seq<nat>, n: nat, cc: nat, cf: bool, c: nat) -> Seq<nat>
    decreases c,
{
    if c == 0 {
        Seq::new(cc, |j: int| 0nat)
    } else {
        let p = col_fold(ws, n, cc, cf, (c - 1) as nat);
        let col = ((c - 1) as nat) % cc;
        let w = item_width(ws, cell_item((c - 1) as nat, n, cc, cf));
        if w > p[col as int] { p.update(col as int, w) } else { p }
    }
}

/// The column widths before expansion: the fixed width, else the widest item in each
/// column (a single column at most the available width).
pub open spec fn base_widths(m: ColumnsModel, ws: Seq<nat>, cc: nat, mw: nat) -> Seq<nat> {
    match m.width {
        Some(w) => Seq::new(cc, |j: int| w as nat),
        None => {
            let f = col_fold(ws, m.len, cc, m.column_first, ((((m.len + cc - 1) as nat) / cc) * cc) as nat);
            if cc == 1 && f[0] > mw { f.update(0, mw) } else { f }
        },
    }
}

/// A sum held at `usize::MAX`.
pub open spec fn sat(a: nat) -> nat {
    if a > usize::MAX { usize::MAX as nat } else { a }
}

/// The total width of the first `k` columns with gaps between them (held at `usize::MAX`).
pub open spec fn sat_total(ws: Seq<nat>, gap: nat, k: nat) -> nat
    decreases k,
{
    if k == 0 {
        0
    } else {
        let t1 = sat(sat_total(ws, gap, (k - 1) as nat) + ws[k - 1]);
        if k - 1 > 0 { sat(t1 + gap) } else { t1 }
    }
}

/// The column widths and total after expansion: the last column takes the room left when
/// expanding.
pub open spec fn expanded(m: ColumnsModel, ws: Seq<nat>, gap: nat, mw: nat) -> (Seq<nat>, nat) {
    let t = sat_total(ws, gap, ws.len());
    if m.expand && t < mw {
        (ws.update(ws.len() - 1, sat((ws[ws.len() - 1] + (mw - t)) as nat)), mw)
    } else {
        (ws, t)
    }
}

/// The final column widths (right to left reverses them) and the total width.
pub open spec fn final_widths(m: ColumnsModel, ws: Seq<nat>, cc: nat, mw: nat) -> (Seq<nat>, nat) {
    let e = expanded(m, base_widths(m, ws, cc, mw), gap_of(m), mw);
    (if m.right_to_left { e.0.reverse() } else { e.0 }, e.1)
}

/// Row `r` of the grid: its cells in display order, each rendered in its column's width;
/// reversed right to left.
pub open spec fn row_spec(ch: Seq<Child>, m: ColumnsModel, ws: Seq<nat>, widths: Seq<nat>, cc: nat, r: nat, o: OptionsModel) -> Seq<Seq<Seq<SegView>>> {
    let fw: nat = if ws.len() > 0 { ws[0] } else { 0 };
    let cells = Seq::new(cc, |x: int| cell_spec(ch, m.align, m.equal, cell_item((r * cc + x) as nat, m.len, cc, m.column_first),
        widths[if m.right_to_left { cc - 1 - x } else { x }], fw, o));
    if m.right_to_left { cells.reverse() } else { cells }
}

/// What columns render: nothing for no items; else the title line and the grid of
/// cells, in as many columns as fit (see `column_count_spec`).
pub open spec fn columns_rendered(ch: Seq<Child>, m: ColumnsModel, o: OptionsModel) -> Seq<SegView> {
    let n = m.len;
    let tlen: nat = match m.title { Some(t) => unicode_str_width(t) as nat, None => 0 };
    let ws = item_ws(ch, o, m.equal);
    let cc = column_count_spec(m, o.max_width as nat, ws);
    if n == 0 {
        Seq::empty()
    } else if n >= usize::MAX / 4 || cc >= usize::MAX / 4 || cc == 0 {
        columns_out_spec(m.title, tlen, Seq::empty(), Seq::new(cc, |j: int| 0nat), gap_of(m), leading_of(m), 0)
    } else {
        let fwt = final_widths(m, ws, cc, o.max_width as nat);
        let rows_n = ((n + cc - 1) as nat) / cc;
        let rows = Seq::new(rows_n, |r: int| row_spec(ch, m, ws, fwt.0, cc, r as nat, o));
        columns_out_spec(m.title, tlen, rows, fwt.0, gap_of(m), leading_of(m), fwt.1)
    }
}

/// Where a line of `cw` cells sits in a column of `w` cells.
fn place_line(line: Vec<Segment>, cw: usize, w: usize, align: AlignMethod) -> (r: Vec<Segment>)
    ensures
        segs_view(r@) == placed_line(segs_view(line@), cw as nat, w as nat, align),
{
    if cw >= w {
        return line;
    }
    let excess = w - cw;
    let mut out: Vec<Segment> = Vec::new();
    assert(segs_view(out@) =~= Seq::<SegView>::empty());
    match align {
        AlignMethod::Left => {
            push_all(&mut out, &line);
            push_one(&mut out, blank_segment(excess));
        },
        AlignMethod::Center => {
            let l = excess / 2;
            if l > 0 {
                push_one(&mut out, blank_segment(l));
            }
            push_all(&mut out, &line);
            if excess - l > 0 {
                push_one(&mut out, blank_segment(excess - l));
            }
        },
        AlignMethod::Right => {
            push_one(&mut out, blank_segment(excess));
            push_all(&mut out, &line);
        },
    }
    assert(segs_view(out@) =~= placed_line(segs_view(line@), cw as nat, w as nat, align));
    out
}

/// A child rendered as wide as it needs (at most `avail`) and its lines placed in
/// `avail` cells.
fn place_cell(child: &Child, a: AlignMethod, avail: usize, console: &Console, options: &ConsoleOptions) -> (r: Vec<Vec<Segment>>)
    ensures
        lines_view(r@) == placed_cell(*child, options@, avail as nat, a),
{
    let m = console.measure(child, Some(options));
    let cw = if m.maximum < avail { m.maximum } else { avail };
    let o = options.update_width(cw);
    let lines = console.render_lines(child, Some(&o), None, true, false);
    let ghost segs = child.rendered(o@);
    assert(cw == placed_width(*child, options@, avail as nat));
    let ghost lv = lines_view(lines@);
    let mut out: Vec<Vec<Segment>> = Vec::new();
    let mut k: usize = 0;
    while k < lines.len()
        invariant
            k <= lines@.len(),
            lv == lines_view(lines@),
            lines_view(out@) == placed_lines(lv.take(k as int), cw as nat, avail as nat, a),
        decreases lines.len() - k,
    {
        let l = crate::segment::copy_segs(&lines[k]);
        let p = place_line(l, cw, avail, a);
        let ghost before = lines_view(out@);
        out.push(p);
        assert(lv[k as int] == segs_view(lines@[k as int]@));
        assert(lines_view(out@) =~= before.push(segs_view(p@)));
        assert(placed_lines(lv.take(k + 1), cw as nat, avail as nat, a)
            =~= placed_lines(lv.take(k as int), cw as nat, avail as nat, a).push(placed_line(lv[k as int], cw as nat, avail as nat, a)));
        k = k + 1;
    }
    assert(lv.take(k as int) =~= lv);
    assert(lines_view(out@) == placed_lines(lines_of_render(segs, None, cw as nat, true, false), cw as nat, avail as nat, a));
    out
}

impl Columns {
    /// The measured widths of the items, all the widest when equal.
    fn item_widths(&self, console: &Console, options: &ConsoleOptions) -> (r: Vec<usize>)
        ensures
            r@.len() == self@.len,
            nats(r@) == item_ws(self.renderables@, options@, self.equal),
    {
        let ghost ms = self.renderables@.map_values(|c: Child| c.measured(options@).maximum as nat);
        let mut ws: Vec<usize> = Vec::new();
        let mut widest: usize = 0;
        let mut i: usize = 0;
        while i < self.renderables.len()
            invariant
                i <= self.renderables@.len(),
                ws@.len() == i,
                ms == self.renderables@.map_values(|c: Child| c.measured(options@).maximum as nat),
                nats(ws@) == ms.take(i as int),
                widest as nat == seq_max(ms.take(i as int)),
            decreases self.renderables.len() - i,
        {
            let m = console.measure(&self.renderables[i], Some(options));
            ws.push(m.maximum);
            assert(ms[i as int] == m.maximum as nat);
            assert(nats(ws@) =~= ms.take(i + 1));
            assert(ms.take(i + 1).drop_last() =~= ms.take(i as int));
            if m.maximum > widest {
                widest = m.maximum;
            }
            i = i + 1;
        }
        assert(ms.take(i as int) =~= ms);
        if self.equal {
            let mut eq: Vec<usize> = Vec::new();
            let mut k: usize = 0;
            while k < ws.len()
                invariant
                    k <= ws@.len(),
                    eq@.len() == k,
                    forall|j: int| 0 <= j < k ==> #[trigger] eq@[j] as nat == seq_max(ms),
                    widest as nat == seq_max(ms),
                decreases ws.len() - k,
            {
                eq.push(widest);
                k = k + 1;
            }
            assert(nats(eq@) =~= item_ws(self.renderables@, options@, self.equal));
            eq
        } else {
            ws
        }
    }

    /// The lines of one cell: the item rendered in its column (placed as asked), or none.
    fn cell_lines(&self, item: Option<usize>, w: usize, first_width: usize, console: &Console, options: &ConsoleOptions) -> (r: Vec<Vec<Segment>>)
        ensures
            lines_view(r@) == cell_spec(self.renderables@, self.align, self.equal,
                match item { Some(i) => Some(i as nat), None => None }, w as nat, first_width as nat, options@),
    {
        match item {
            None => Vec::new(),
            Some(i) => {
                if i >= self.renderables.len() {
                    return Vec::new();
                }
                let child = &self.renderables[i];
                let placement: Option<(AlignMethod, usize)> = match self.align {
                    Some(a) => Some((a, if self.equal { first_width } else { w })),
                    None => if self.equal { Some((AlignMethod::Left, first_width)) } else { None },
                };
                match placement {
                    None => {
                        let o = options.update_width(w);
                        console.render_lines(child, Some(&o), None, true, false)
                    },
                    Some((a, avail)) => {
                        assert(avail as nat == if self.equal { first_width as nat } else { w as nat });
                        place_cell(child, a, avail, console, options)
                    },
                }
            },
        }
    }
}

impl Columns {
    /// Write the title line (when there is a title) centered in `tw` cells, keeping the
    /// title's width.
    fn push_title(&self, out: &mut Vec<Segment>, tw: usize, tlen: &mut usize)
        ensures
            segs_view(final(out)@) == segs_view(old(out)@) + (match self@.title {
                Some(t) => title_line(t, *final(tlen) as nat, tw as nat),
                None => Seq::empty(),
            }),
            self@.title is None ==> *final(tlen) == *old(tlen),
            self@.title is Some ==> *final(tlen) as nat == unicode_str_width(self@.title->0) as nat,
    {
        match &self.title {
            Some(t) => {
                let tt = t.plain_text();
                *tlen = crate::cells::cell_len(tt.as_str());
                let excess: usize = if tw > *tlen { tw - *tlen } else { 0 };
                let l = excess / 2;
                let ghost b = segs_view(out@);
                push_one(out, blank_segment(l));
                push_one(out, Segment { text: tt, style: None, control: None, link: None });
                push_one(out, blank_segment(excess - l));
                push_one(out, Segment::line());
                assert(segs_view(out@) =~= b + title_line(t@.plain, *tlen as nat, tw as nat));
            },
            None => {
                assert(segs_view(out@) =~= segs_view(old(out)@) + Seq::<SegView>::empty());
            },
        }
    }
}

impl Columns {
    /// The column widths before expansion (see `base_widths`).
    fn base_widths_exec(&self, ws: &Vec<usize>, cc: usize, mw: usize) -> (r: Vec<usize>)
        requires
            cc >= 1,
            self@.len >= 1,
            self@.len + cc <= usize::MAX,
            ws@.len() == self@.len,
        ensures
            r@.len() == cc,
            nats(r@) == base_widths(self@, nats(ws@), cc as nat, mw as nat),
    {
        let n = self.renderables.len();
        let ghost wsv = nats(ws@);
        let mut widths: Vec<usize> = Vec::new();
        let mut j: usize = 0;
        while j < cc
            invariant
                j <= cc,
                widths@.len() == j,
                forall|k: int| 0 <= k < j ==> #[trigger] widths@[k] as nat == match self.width { Some(w) => w as nat, None => 0nat },
            decreases cc - j,
        {
            widths.push(match self.width { Some(w) => w, None => 0 });
            j = j + 1;
        }
        match self.width {
            Some(w) => {
                assert(nats(widths@) =~= Seq::new(cc as nat, |k: int| w as nat));
                widths
            },
            None => {
                assert(nats(widths@) =~= col_fold(wsv, n as nat, cc as nat, self.column_first, 0));
                let rows_n = (n + cc - 1) / cc;
                proof {
                    assert(rows_n * cc <= n + cc) by (nonlinear_arith)
                        requires
                            rows_n == ((n + cc - 1) as int) / (cc as int),
                            cc >= 1,
                            n >= 1,
                    ;
                }
                let cells = rows_n * cc;
                let mut c: usize = 0;
                while c < cells
                    invariant
                        widths@.len() == cc,
                        cc >= 1,
                        n == self@.len,
                        n + cc <= usize::MAX,
                        cells <= n + cc,
                        c <= cells,
                        ws@.len() == n,
                        wsv == nats(ws@),
                        nats(widths@) == col_fold(wsv, n as nat, cc as nat, self.column_first, c as nat),
                    decreases cells - c,
                {
                    let item = cell_item_exec(c, n, cc, self.column_first);
                    let w = match item { Some(i) => if i < ws.len() { ws[i] } else { 0 }, None => 0 };
                    let col = c % cc;
                    let ghost p = nats(widths@);
                    assert(w as nat == item_width(wsv, cell_item(c as nat, n as nat, cc as nat, self.column_first)));
                    if w > widths[col] {
                        widths.set(col, w);
                        assert(nats(widths@) =~= p.update(col as int, w as nat));
                    }
                    c = c + 1;
                }
                if cc == 1 && widths[0] > mw {
                    let ghost p = nats(widths@);
                    widths.set(0, mw);
                    assert(nats(widths@) =~= p.update(0, mw as nat));
                }
                widths
            },
        }
    }

    /// The total width with gaps (see `sat_total`).
    fn total_exec(widths: &Vec<usize>, gap: usize) -> (r: usize)
        ensures
            r as nat == sat_total(nats(widths@), gap as nat, widths@.len()),
    {
        let mut total: usize = 0;
        let mut k: usize = 0;
        while k < widths.len()
            invariant
                k <= widths@.len(),
                total as nat == sat_total(nats(widths@), gap as nat, k as nat),
            decreases widths.len() - k,
        {
            total = total.saturating_add(widths[k]);
            if k > 0 {
                total = total.saturating_add(gap);
            }
            k = k + 1;
        }
        total
    }

    /// Row `rno` of the grid (see `row_spec`).
    fn row_exec(&self, ws: &Vec<usize>, widths: &Vec<usize>, cc: usize, rno: usize, console: &Console, options: &ConsoleOptions) -> (r: Vec<Vec<Vec<Segment>>>)
        requires
            cc >= 1,
            widths@.len() == cc,
            (rno + 1) * cc <= self@.len + cc,
            self@.len + cc <= usize::MAX,
        ensures
            r@.map_values(|cell: Vec<Vec<Segment>>| lines_view(cell@)) == row_spec(self.renderables@, self@, nats(ws@), nats(widths@), cc as nat, rno as nat, options@),
    {
        let n = self.renderables.len();
        let first_width: usize = if ws.len() > 0 { ws[0] } else { 0 };
        let ghost wsv = nats(ws@);
        let ghost wv = nats(widths@);
        let ghost fw: nat = if wsv.len() > 0 { wsv[0] } else { 0 };
        let ghost cells_spec = Seq::new(cc as nat, |x: int| cell_spec(self.renderables@, self@.align, self@.equal,
            cell_item((rno * cc + x) as nat, self@.len, cc as nat, self@.column_first),
            wv[if self@.right_to_left { cc - 1 - x } else { x }], fw, options@));
        proof {
            assert(rno * cc + cc <= n + cc) by (nonlinear_arith)
                requires
                    (rno + 1) * cc <= n + cc,
            ;
        }
        let c = rno * cc;
        let mut row: Vec<Vec<Vec<Segment>>> = Vec::new();
        let mut x: usize = 0;
        while x < cc
            invariant
                x <= cc,
                c + cc <= n + cc,
                n + cc <= usize::MAX,
                n == self@.len,
                c == rno * cc,
                widths@.len() == cc,
                wv == nats(widths@),
                first_width as nat == fw,
                cells_spec == Seq::new(cc as nat, |x: int| cell_spec(self.renderables@, self@.align, self@.equal,
                    cell_item((rno * cc + x) as nat, self@.len, cc as nat, self@.column_first),
                    wv[if self@.right_to_left { cc - 1 - x } else { x }], fw, options@)),
                row@.map_values(|cell: Vec<Vec<Segment>>| lines_view(cell@)) == cells_spec.take(x as int),
            decreases cc - x,
        {
            let item = cell_item_exec(c + x, n, cc, self.column_first);
            let col = if self.right_to_left { cc - 1 - x } else { x };
            let w = widths[col];
            let cell = self.cell_lines(item, w, first_width, console, options);
            assert(w as nat == wv[col as int]);
            assert(self@.align == self.align && self@.equal == self.equal && self@.len == n);
            assert(lines_view(cell@) == cells_spec[x as int]);
            let ghost before = row@.map_values(|cell: Vec<Vec<Segment>>| lines_view(cell@));
            row.push(cell);
            assert(row@.map_values(|cell: Vec<Vec<Segment>>| lines_view(cell@)) =~= before.push(lines_view(cell@)));
            assert(cells_spec.take(x + 1) =~= cells_spec.take(x as int).push(cells_spec[x as int]));
            x = x + 1;
        }
        assert(cells_spec.take(x as int) =~= cells_spec);
        if self.right_to_left {
            let ghost orig = row@.map_values(|cell: Vec<Vec<Segment>>| lines_view(cell@));
            let mut rrow: Vec<Vec<Vec<Segment>>> = Vec::new();
            while row.len() > 0
                invariant
                    orig.len() == cc,
                    row@.len() + rrow@.len() == cc,
                    row@.map_values(|cell: Vec<Vec<Segment>>| lines_view(cell@)) == orig.take(row@.len() as int),
                    rrow@.map_values(|cell: Vec<Vec<Segment>>| lines_view(cell@)) == orig.reverse().take(rrow@.len() as int),
                decreases row@.len(),
            {
                let ghost k = row@.len();
                let ghost rb = rrow@.map_values(|cell: Vec<Vec<Segment>>| lines_view(cell@));
                let ghost rowv = row@;
                assert(row@.map_values(|cell: Vec<Vec<Segment>>| lines_view(cell@))[k - 1] == lines_view(rowv[k - 1]@));
                assert(orig.take(k as int)[k - 1] == orig[k - 1]);
                let cell = row.pop().unwrap();
                assert(cell == rowv[k - 1]);
                assert(lines_view(cell@) == orig[k - 1]);
                rrow.push(cell);
                assert(row@.map_values(|cell: Vec<Vec<Segment>>| lines_view(cell@)) =~= orig.take(k - 1));
                assert(orig.reverse()[(cc - k) as int] == orig[k - 1]);
                assert(rrow@.map_values(|cell: Vec<Vec<Segment>>| lines_view(cell@)) =~= orig.reverse().take(rrow@.len() as int));
            }
            assert(orig.reverse().take(cc as int) =~= orig.reverse());
            rrow
        } else {
            row
        }
    }
}

impl Renderable for Columns {
    open spec fn rendered(&self, o: OptionsModel) -> Seq<SegView> {
        columns_rendered(self.children(), self@, o)
    }

    open spec fn measured(&self, o: OptionsModel) -> Measurement {
        let w = crate::wrap::satw(max_line_width(crate::segment::split_lines_spec(columns_rendered(self.children(), self@, o))));
        Measurement { minimum: w as usize, maximum: w as usize }
    }

    fn render(&self, console: &Console, options: &ConsoleOptions) -> (r: Vec<Segment>)
    {
        let n = self.renderables.len();
        if n == 0 {
            return Vec::new();
        }
        let (top, right, bottom, left) = self.padding;
        let gap = if left >= right { left } else { right };
        let leading = top.saturating_add(bottom);
        let mw = options.max_width;
        let ws = self.item_widths(console, options);
        let cc = self.column_count(&ws, mw);
        let ghost wsv = nats(ws@);
        let mut out: Vec<Segment> = Vec::new();
        let mut tlen: usize = 0;
        assert(gap_of(self@) == gap as nat);
        assert(leading_of(self@) == leading as nat);
        if n >= usize::MAX / 4 || cc >= usize::MAX / 4 || cc == 0 {
            self.push_title(&mut out, 0, &mut tlen);
            assert(grid_upto(Seq::<Seq<Seq<Seq<SegView>>>>::empty(), Seq::new(cc as nat, |j: int| 0nat), gap_of(self@), leading_of(self@), 0, 0) =~= Seq::<SegView>::empty());
            proof {
                let widths = Seq::new(cc as nat, |j: int| 0nat);
                assert(columns_out_spec(self@.title, tlen as nat, Seq::empty(), widths, gap_of(self@), leading_of(self@), 0)
                    =~= segs_view(out@));
            }
            return out;
        }
        let rows_n = (n + cc - 1) / cc;
        proof {
            assert(rows_n * cc <= n + cc) by (nonlinear_arith)
                requires
                    rows_n == ((n + cc - 1) as int) / (cc as int),
                    cc >= 1,
                    n >= 1,
            ;
        }
        let mut widths = self.base_widths_exec(&ws, cc, mw);
        let mut total = Self::total_exec(&widths, gap);
        if self.expand && total < mw {
            let ghost p = nats(widths@);
            let last = widths[cc - 1];
            widths.set(cc - 1, last.saturating_add(mw - total));
            assert(nats(widths@) =~= p.update(cc - 1, sat((p[cc - 1] + (mw - total)) as nat)));
            total = mw;
        }
        if self.right_to_left {
            let ghost p = nats(widths@);
            let mut rw: Vec<usize> = Vec::new();
            let mut q: usize = cc;
            while q > 0
                invariant
                    q <= cc,
                    widths@.len() == cc,
                    p == nats(widths@),
                    rw@.len() == cc - q,
                    nats(rw@) == p.reverse().take((cc - q) as int),
                decreases q,
            {
                rw.push(widths[q - 1]);
                assert(p.reverse()[(cc - q) as int] == p[q - 1]);
                assert(nats(rw@) =~= p.reverse().take((cc - q + 1) as int));
                q = q - 1;
            }
            assert(p.reverse().take(cc as int) =~= p.reverse());
            widths = rw;
        }
        let ghost fwt = final_widths(self@, wsv, cc as nat, mw as nat);
        assert(nats(widths@) == fwt.0 && total as nat == fwt.1);
        // The rows of cells.
        let mut rows: Vec<Vec<Vec<Vec<Segment>>>> = Vec::new();
        let mut rno: usize = 0;
        while rno < rows_n
            invariant
                widths@.len() == cc,
                cc >= 1,
                n == self@.len,
                n + cc <= usize::MAX,
                rows_n as nat == ((n + cc - 1) as nat) / (cc as nat),
                rows_n * cc <= n + cc,
                rno <= rows_n,
                nats(widths@) == fwt.0,
                wsv == nats(ws@),
                rows_view(rows@) == Seq::new(rno as nat, |r: int| row_spec(self.renderables@, self@, wsv, fwt.0, cc as nat, r as nat, options@)),
            decreases rows_n - rno,
        {
            proof {
                assert((rno + 1) * cc <= rows_n * cc) by (nonlinear_arith)
                    requires
                        rno + 1 <= rows_n,
                        cc >= 1,
                ;
            }
            let row = self.row_exec(&ws, &widths, cc, rno, console, options);
            let ghost before = rows_view(rows@);
            let ghost rmap = row@.map_values(|cell: Vec<Vec<Segment>>| lines_view(cell@));
            rows.push(row);
            assert(rows_view(rows@) =~= before.push(rmap));
            assert(rows_view(rows@) =~= Seq::new((rno + 1) as nat, |r: int| row_spec(self.renderables@, self@, wsv, fwt.0, cc as nat, r as nat, options@)));
            rno = rno + 1;
        }
        self.push_title(&mut out, total, &mut tlen);
        let grid = assemble_grid(&rows, &widths, gap, leading, total);
        push_all(&mut out, &grid);
        proof {
            let rv = rows_view(rows@);
            assert(column_count_spec(self@, options@.max_width as nat, wsv) == cc);
            assert(segs_view(out@) == columns_out_spec(self@.title, tlen as nat, rv, nats(widths@), gap_of(self@), leading_of(self@), total as nat));
        }
        out
    }

    fn measure(&self, console: &Console, options: &ConsoleOptions) -> (r: Measurement)
    {
        let segs = self.render(console, options);
        let lines = Segment::split_lines(segs);
        let ghost lv = lines_view(lines@);
        let mut widest: usize = 0;
        let mut i: usize = 0;
        while i < lines.len()
            invariant
                i <= lines@.len(),
                lv == lines_view(lines@),
                widest as nat == crate::wrap::satw(max_line_width(lv.take(i as int))),
            decreases lines.len() - i,
        {
            assert(lv.take(i + 1).drop_last() =~= lv.take(i as int));
            assert(lv[i as int] == segs_view(lines@[i as int]@));
            let w = crate::segment::line_width_sat(&lines[i]);
            if w > widest {
                widest = w;
            }
            i = i + 1;
        }
        assert(lv.take(i as int) =~= lv);
        Measurement::new(widest, widest)
    }
}


/// The column widths after a pass over the display cells from cell `k`: each column
/// as wide as the widest item placed in it.
pub open spec fn pass_widths(ws: Seq<nat>, items: Seq<Option<nat>>, cc: nat, k: nat, colw: Seq<nat>) -> Seq<nat>
    decreases items.len() - k,
{
    if k >= items.len() || cc == 0 {
        colw
    } else {
        pass_widths(ws, items, cc, k + 1, widen(colw, k, cc, item_width(ws, items[k as int])))
    }
}

proof fn lemma_fit_pass_fewer(ws: Seq<nat>, items: Seq<Option<nat>>, cc: nat, mw: nat, gap: nat, k: nat, colw: Seq<nat>)
    requires
        cc >= 2,
        colw.len() == if k < cc { k } else { cc },
    ensures
        fit_pass(ws, items, cc, mw, gap, k, colw) matches Some(c2) ==> c2 < cc,
    decreases items.len() - k,
{
    if k < items.len() {
        let w = item_width(ws, items[k as int]);
        lemma_widen_len(colw, k, cc, w);
        let c2 = widen(colw, k, cc, w);
        if columns_total(c2, gap) <= mw {
            lemma_fit_pass_fewer(ws, items, cc, mw, gap, k + 1, c2);
        }
    }
}

proof fn lemma_pass_fits(ws: Seq<nat>, items: Seq<Option<nat>>, cc: nat, mw: nat, gap: nat, k: nat, colw: Seq<nat>)
    requires
        cc > 0,
        fit_pass(ws, items, cc, mw, gap, k, colw) is None,
        columns_total(colw, gap) <= mw,
    ensures
        columns_total(pass_widths(ws, items, cc, k, colw), gap) <= mw,
    decreases items.len() - k,
{
    if k < items.len() {
        let c2 = widen(colw, k, cc, item_width(ws, items[k as int]));
        lemma_pass_fits(ws, items, cc, mw, gap, k + 1, c2);
    }
}

/// The number of columns chosen for items of widths `ws` in `mw` cells, when it is
/// more than one, fits: a pass over the display cells in that many columns never goes
/// past `mw`, and the columns, each as wide as its widest item, with the gaps between
/// them, take at most `mw` cells.
pub proof fn law_column_count_fits(ws: Seq<nat>, n: nat, mw: nat, gap: nat, column_first: bool, cc: nat)
    requires
        auto_count(ws, n, mw, gap, column_first, cc) >= 2,
    ensures
        ({
            let c = auto_count(ws, n, mw, gap, column_first, cc);
            let items = cell_items(n, c, column_first);
            &&& fit_pass(ws, items, c, mw, gap, 0, Seq::empty()) is None
            &&& columns_total(pass_widths(ws, items, c, 0, Seq::empty()), gap) <= mw
        }),
    decreases cc,
{
    let items = cell_items(n, cc, column_first);
    lemma_fit_pass_fewer(ws, items, cc, mw, gap, 0, Seq::empty());
    match fit_pass(ws, items, cc, mw, gap, 0, Seq::empty()) {
        None => {
            lemma_pass_fits(ws, items, cc, mw, gap, 0, Seq::empty());
        },
        Some(c2) => {
            law_column_count_fits(ws, n, mw, gap, column_first, c2);
        },
    }
}

} // verus!
