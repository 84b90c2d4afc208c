//! Layout: the division of an area into rows or columns by fixed sizes and ratios, and
//! the composition of rendered regions into screen lines.
use vstd::prelude::*;
use crate::segment::{Segment, SegView, ControlType, seg_view, segs_view, lines_view};
use crate::style::Style;
use crate::strs::{push_repeat, repeat_spec};
use crate::align::push_all;

verus! {

/// How a layout divides its area among its children.
#[derive(Debug, Clone, Copy, PartialEq, Eq, Structural)]
pub enum SplitterKind {
    /// Side by side.
    Row,
    /// Stacked.
    Column,
}

/// A rectangle of the screen.
#[derive(Debug, Clone, Copy, PartialEq, Eq, Structural)]
pub struct Region {
    /// Column of the left edge.
    pub x: usize,
    /// Line of the top edge.
    pub y: usize,
    /// Width in cells.
    pub width: usize,
    /// Height in lines.
    pub height: usize,
}

/// A region and the lines rendered for it.
pub struct LayoutRender {
    /// Where the lines go.
    pub region: Region,
    /// The lines.
    pub lines: Vec<Vec<Segment>>,
}

/// What a child asks of the division: a fixed size, or a share by ratio with a
/// minimum.
#[derive(Debug, Clone, Copy, PartialEq, Eq, Structural)]
pub struct Edge {
    /// A fixed size, if any.
    pub size: Option<usize>,
    /// The share of what is left (taken as at least one).
    pub ratio: usize,
    /// The smallest size (taken as at least one).
    pub minimum_size: usize,
}

/// The ratio of an edge, at least one.
pub open spec fn ratio_of(e: Edge) -> int {
    if e.ratio >= 1 { e.ratio as int } else { 1 }
}

/// The minimum size of an edge, at least one.
pub open spec fn min_of(e: Edge) -> int {
    if e.minimum_size >= 1 { e.minimum_size as int } else { 1 }
}

/// The sum of the sizes that are set.
pub open spec fn used(sizes: Seq<Option<int>>) -> int
    decreases sizes.len(),
{
    if sizes.len() == 0 {
        0
    } else {
        used(sizes.drop_last()) + match sizes.last() { Some(v) => v, None => 0 }
    }
}

/// The sum of the ratios of the edges whose size is not set.
pub open spec fn open_ratio(sizes: Seq<Option<int>>, edges: Seq<Edge>) -> int
    decreases sizes.len(),
{
    if sizes.len() == 0 {
        0
    } else {
        open_ratio(sizes.drop_last(), edges)
            + if sizes.last() is None && sizes.len() - 1 < edges.len() { ratio_of(edges[sizes.len() - 1]) } else { 0 }
    }
}

/// How many sizes are not set.
pub open spec fn open_count(sizes: Seq<Option<int>>) -> nat
    decreases sizes.len(),
{
    if sizes.len() == 0 {
        0
    } else {
        open_count(sizes.drop_last()) + if sizes.last() is None { 1nat } else { 0nat }
    }
}

/// The first edge from `i` whose size is not set and whose share of `remaining` (by
/// ratio out of `den`) would not exceed its minimum.
pub open spec fn first_short(sizes: Seq<Option<int>>, edges: Seq<Edge>, remaining: int, den: int, i: nat) -> Option<nat>
    decreases sizes.len() - i,
{
    if i >= sizes.len() {
        None
    } else if sizes[i as int] is None && i < edges.len()
        && remaining * ratio_of(edges[i as int]) <= min_of(edges[i as int]) * den {
        Some(i)
    } else {
        first_short(sizes, edges, remaining, den, i + 1)
    }
}

/// The sizes from `i` on with the unset ones given their share of `remaining` by
/// ratio out of `den`, whole cells, the remainders carried forward (`carry` so far).
pub open spec fn share_out(sizes: Seq<Option<int>>, edges: Seq<Edge>, remaining: int, den: int, i: nat, carry: int) -> Seq<int>
    decreases sizes.len() - i,
{
    if i >= sizes.len() {
        Seq::empty()
    } else {
        match sizes[i as int] {
            Some(v) => seq![v] + share_out(sizes, edges, remaining, den, i + 1, carry),
            None => {
                let num = remaining * (if i < edges.len() { ratio_of(edges[i as int]) } else { 1 }) + carry;
                seq![num / den] + share_out(sizes, edges, remaining, den, i + 1, num % den)
            },
        }
    }
}

/// The sizes of edges dividing `total`: fixed sizes stay; when nothing remains, the
/// others take their minimum; else an edge whose share would not exceed its minimum
/// takes that minimum and the rest is divided again; else all share what remains by
/// ratio.
pub open spec fn resolve(total: int, sizes: Seq<Option<int>>, edges: Seq<Edge>) -> Seq<int>
    decreases open_count(sizes),
{
    if open_count(sizes) == 0 {
        sizes.map_values(|s: Option<int>| match s { Some(v) => v, None => 0 })
    } else {
        let remaining = total - used(sizes);
        if remaining <= 0 {
            Seq::new(sizes.len(), |i: int| match sizes[i] {
                Some(v) => v,
                None => if i < edges.len() { min_of(edges[i]) } else { 1 },
            })
        } else {
            let den = if open_ratio(sizes, edges) >= 1 { open_ratio(sizes, edges) } else { 1 };
            match first_short(sizes, edges, remaining, den, 0) {
                Some(i) => if i < sizes.len() && sizes[i as int] is None && i < edges.len() {
                    proof {
                        lemma_open_count_update(sizes, i as int, min_of(edges[i as int]));
                    }
                    resolve(total, sizes.update(i as int, Some(min_of(edges[i as int]))), edges)
                } else {
                    Seq::empty()
                },
                None => share_out(sizes, edges, remaining, den, 0, 0),
            }
        }
    }
}

/// Setting one unset size leaves one fewer unset.
pub proof fn lemma_open_count_update(sizes: Seq<Option<int>>, i: int, v: int)
    requires
        0 <= i < sizes.len(),
        sizes[i] is None,
    ensures
        open_count(sizes.update(i, Some(v))) + 1 == open_count(sizes),
    decreases sizes.len(),
{
    if i == sizes.len() - 1 {
        assert(sizes.update(i, Some(v)).drop_last() =~= sizes.drop_last());
    } else {
        lemma_open_count_update(sizes.drop_last(), i, v);
        assert(sizes.update(i, Some(v)).drop_last() =~= sizes.drop_last().update(i, Some(v)));
    }
}

proof fn lemma_first_short(sizes: Seq<Option<int>>, edges: Seq<Edge>, remaining: int, den: int, i: nat)
    ensures
        first_short(sizes, edges, remaining, den, i) matches Some(f) ==> i <= f < sizes.len() && f < edges.len()
            && sizes[f as int] is None,
    decreases sizes.len() - i,
{
    if i < sizes.len() {
        lemma_first_short(sizes, edges, remaining, den, i + 1);
    }
}

/// Sizes by their values.
pub open spec fn sizes_view(v: Seq<Option<u128>>) -> Seq<Option<int>> {
    v.map_values(|s: Option<u128>| match s { Some(x) => Some(x as int), None => None })
}

/// What the division needs of its numbers: each at most `i64::MAX`.
pub open spec fn edges_bounded(edges: Seq<Edge>) -> bool {
    forall|i: int| 0 <= i < edges.len() ==> {
        &&& (#[trigger] edges[i]).ratio <= i64::MAX
        &&& edges[i].minimum_size <= i64::MAX
        &&& match edges[i].size { Some(s) => s <= i64::MAX, None => true }
    }
}

/// The sizes as set in the edges.
pub open spec fn initial_sizes(edges: Seq<Edge>) -> Seq<Option<int>> {
    edges.map_values(|e: Edge| match e.size { Some(s) => Some(s as int), None => None })
}

/// The sizes of edges dividing `total` (see `resolve`).
pub fn ratio_resolve(total: usize, edges: &Vec<Edge>) -> (r: Vec<u128>)
    requires
        total <= i64::MAX,
        edges_bounded(edges@),
    ensures
        r@.map_values(|x: u128| x as int) == resolve(total as int, initial_sizes(edges@), edges@),
{
    let n: usize = edges.len();
    let mut sizes: Vec<Option<u128>> = Vec::new();
    let mut i: usize = 0;
    while i < n
        invariant
            n == edges@.len(),
            i <= n,
            sizes@.len() == i,
            edges_bounded(edges@),
            forall|k: int| 0 <= k < i ==> sizes_view(sizes@)[k] == #[trigger] initial_sizes(edges@)[k],
            forall|k: int| 0 <= k < i ==> match #[trigger] sizes@[k] { Some(v) => v <= i64::MAX, None => true },
        decreases n - i,
    {
        let e = edges[i];
        sizes.push(match e.size { Some(s) => Some(s as u128), None => None });
        assert(sizes_view(sizes@)[i as int] == initial_sizes(edges@)[i as int]);
        i = i + 1;
    }
    let ghost start = sizes_view(sizes@);
    assert(start =~= initial_sizes(edges@));
    loop
        invariant
            sizes@.len() == n,
            n == edges@.len(),
            total <= i64::MAX,
            edges_bounded(edges@),
            start == initial_sizes(edges@),
            forall|k: int| 0 <= k < n ==> match #[trigger] sizes@[k] { Some(v) => v <= i64::MAX, None => true },
            resolve(total as int, start, edges@) == resolve(total as int, sizes_view(sizes@), edges@),
        decreases open_count(sizes_view(sizes@)),
    {
        let ghost sv = sizes_view(sizes@);
        let mut used_v: u128 = 0;
        let mut den: u128 = 0;
        let mut open: usize = 0;
        let mut k: usize = 0;
        while k < n
            invariant
                k <= n,
                sizes@.len() == n,
                n == edges@.len(),
                sv == sizes_view(sizes@),
                edges_bounded(edges@),
                forall|q: int| 0 <= q < n ==> match #[trigger] sizes@[q] { Some(v) => v <= i64::MAX, None => true },
                used_v == used(sv.take(k as int)),
                den == open_ratio(sv.take(k as int), edges@),
                open == open_count(sv.take(k as int)),
                used_v <= k * 0x8000_0000_0000_0000,
                den <= k * 0x8000_0000_0000_0000,
                open <= k,
            decreases n - k,
        {
            proof {
                assert(sv.take(k + 1).drop_last() =~= sv.take(k as int));
                assert(sv.take(k + 1).last() == sv[k as int]);
            }
            match sizes[k] {
                Some(v) => {
                    used_v = used_v + v;
                },
                None => {
                    let e = edges[k];
                    assert(e.ratio <= i64::MAX);
                    den = den + if e.ratio >= 1 { e.ratio as u128 } else { 1 };
                    open = open + 1;
                },
            }
            k = k + 1;
        }
        assert(sv.take(n as int) =~= sv);
        if open == 0 {
            proof {
                assert(resolve(total as int, sv, edges@) == sv.map_values(|s: Option<int>| match s { Some(v) => v, None => 0 }));
            }
            let mut out: Vec<u128> = Vec::new();
            let mut q: usize = 0;
            while q < n
                invariant
                    q <= n,
                    sizes@.len() == n,
                    sv == sizes_view(sizes@),
                    out@.len() == q,
                    forall|t: int| 0 <= t < q ==> #[trigger] out@[t] as int == match sv[t] { Some(v) => v, None => 0 },
                decreases n - q,
            {
                out.push(match sizes[q] { Some(v) => v, None => 0 });
                q = q + 1;
            }
            assert(out@.map_values(|x: u128| x as int) =~= sv.map_values(|s: Option<int>| match s { Some(v) => v, None => 0 }));
            return out;
        }
        if used_v >= total as u128 {
            let mut out: Vec<u128> = Vec::new();
            let mut q: usize = 0;
            while q < n
                invariant
                    q <= n,
                    n == edges@.len(),
                    sizes@.len() == n,
                    sv == sizes_view(sizes@),
                    out@.len() == q,
                    forall|t: int| 0 <= t < q ==> #[trigger] out@[t] as int == match sv[t] {
                        Some(v) => v,
                        None => min_of(edges@[t]),
                    },
                decreases n - q,
            {
                let e = edges[q];
                out.push(match sizes[q] { Some(v) => v, None => if e.minimum_size >= 1 { e.minimum_size as u128 } else { 1 } });
                q = q + 1;
            }
            proof {
                let res = resolve(total as int, sv, edges@);
                assert(out@.map_values(|x: u128| x as int) =~= res);
            }
            return out;
        }
        let remaining: u128 = (total as u128) - used_v;
        let d: u128 = if den >= 1 { den } else { 1 };
        proof {
            assert(d <= 0x8000_0000_0000_0000 * 0x1_0000_0000_0000_0000) by (nonlinear_arith)
                requires
                    d <= n * 0x8000_0000_0000_0000 || d == 1,
                    n <= 0xffff_ffff_ffff_ffff,
            ;
        }
        let mut found: Option<usize> = None;
        let mut q: usize = 0;
        while q < n
            invariant_except_break
                q <= n,
                n == edges@.len(),
                sizes@.len() == n,
                sv == sizes_view(sizes@),
                edges_bounded(edges@),
                remaining <= i64::MAX,
                d >= 1,
                found is None,
                first_short(sv, edges@, remaining as int, d as int, 0) == first_short(sv, edges@, remaining as int, d as int, q as nat),
            ensures
                match found {
                    Some(f) => first_short(sv, edges@, remaining as int, d as int, 0) == Some(f as nat) && f < n,
                    None => first_short(sv, edges@, remaining as int, d as int, 0) is None,
                },
            decreases n - q,
        {
            let e = edges[q];
            if sizes[q].is_none() {
                assert(e.ratio <= i64::MAX && e.minimum_size <= i64::MAX);
                let ratio: u128 = if e.ratio >= 1 { e.ratio as u128 } else { 1 };
                let minv: u128 = if e.minimum_size >= 1 { e.minimum_size as u128 } else { 1 };
                assert(remaining * ratio <= 0x7fff_ffff_ffff_ffff * 0x7fff_ffff_ffff_ffff) by (nonlinear_arith)
                    requires
                        remaining <= 0x7fff_ffff_ffff_ffff,
                        ratio <= 0x7fff_ffff_ffff_ffff,
                ;
                let lhs: u128 = remaining * ratio;
                let rhs: u128 = match minv.checked_mul(d) { Some(x) => x, None => u128::MAX };
                if lhs <= rhs {
                    found = Some(q);
                    break;
                }
            }
            q = q + 1;
        }
        match found {
            Some(f) => {
                let e = edges[f];
                let minv: u128 = if e.minimum_size >= 1 { e.minimum_size as u128 } else { 1 };
                proof {
                    lemma_first_short(sv, edges@, remaining as int, d as int, 0);
                    lemma_open_count_update(sv, f as int, minv as int);
                    assert(resolve(total as int, sv, edges@) == resolve(total as int, sv.update(f as int, Some(min_of(edges@[f as int]))), edges@));
                }
                sizes.set(f, Some(minv));
                assert(sizes_view(sizes@) =~= sv.update(f as int, Some(min_of(edges@[f as int]))));
            },
            None => {
                let mut out: Vec<u128> = Vec::new();
                let mut carry: u128 = 0;
                let mut q: usize = 0;
                assert(out@.map_values(|x: u128| x as int) =~= Seq::<int>::empty());
                while q < n
                    invariant
                        q <= n,
                        n == edges@.len(),
                        sizes@.len() == n,
                        sv == sizes_view(sizes@),
                        edges_bounded(edges@),
                        remaining <= i64::MAX,
                        d >= 1,
                        d <= 0x8000_0000_0000_0000 * 0x1_0000_0000_0000_0000,
                        carry < d,
                        out@.len() == q,
                        share_out(sv, edges@, remaining as int, d as int, 0, 0)
                            == out@.map_values(|x: u128| x as int) + share_out(sv, edges@, remaining as int, d as int, q as nat, carry as int),
                    decreases n - q,
                {
                    let ghost ov = out@.map_values(|x: u128| x as int);
                    match sizes[q] {
                        Some(v) => {
                            out.push(v);
                            assert(out@.map_values(|x: u128| x as int) =~= ov.push(v as int));
                        },
                        None => {
                            let e = edges[q];
                            assert(e.ratio <= i64::MAX);
                            let ratio: u128 = if e.ratio >= 1 { e.ratio as u128 } else { 1 };
                            assert(remaining * ratio <= 0x7fff_ffff_ffff_ffff * 0x7fff_ffff_ffff_ffff) by (nonlinear_arith)
                                requires
                                    remaining <= 0x7fff_ffff_ffff_ffff,
                                    ratio <= 0x7fff_ffff_ffff_ffff,
                            ;
                            let num: u128 = remaining * ratio + carry;
                            out.push(num / d);
                            assert(out@.map_values(|x: u128| x as int) =~= ov.push((num / d) as int));
                            carry = num % d;
                        },
                    }
                    q = q + 1;
                }
                proof {
                    assert(share_out(sv, edges@, remaining as int, d as int, q as nat, carry as int) =~= Seq::<int>::empty());
                    assert(resolve(total as int, sv, edges@) == share_out(sv, edges@, remaining as int, d as int, 0, 0));
                }
                return out;
            },
        }
    }
}

/// A number of cells as a `usize`, held at `usize::MAX`.
fn clamp_size(v: u128) -> (r: usize)
    ensures
        r == if v > usize::MAX { usize::MAX as int } else { v as int },
{
    if v > usize::MAX as u128 { usize::MAX } else { v as usize }
}

/// A size held at `usize::MAX`.
pub open spec fn held(v: int) -> int {
    if v > usize::MAX { usize::MAX as int } else { v }
}

/// Where the `k`th part starts, counted from the region's edge: the sum of the
/// sizes before it, each held at `usize::MAX`, the running sum held there too.
pub open spec fn part_offset(sizes: Seq<int>, k: nat) -> int
    decreases k,
{
    if k == 0 {
        0
    } else {
        held(part_offset(sizes, (k - 1) as nat) + held(sizes[k - 1]))
    }
}

/// The `k`th part of a region divided by the given sizes.
pub open spec fn part_region(region: Region, splitter: SplitterKind, sizes: Seq<int>, k: nat) -> Region {
    let size = held(sizes[k as int]) as usize;
    let at = part_offset(sizes, k);
    match splitter {
        SplitterKind::Row => Region { x: held(region.x + at) as usize, y: region.y, width: size, height: region.height },
        SplitterKind::Column => Region { x: region.x, y: held(region.y + at) as usize, width: region.width, height: size },
    }
}

/// The regions of the children of a region divided side by side (row) or stacked
/// (column) by the sizes that `resolve` gives, one after another from the region's
/// left or top edge.
pub fn divide_region(region: Region, splitter: SplitterKind, edges: &Vec<Edge>) -> (r: Vec<Region>)
    requires
        region.width <= i64::MAX,
        region.height <= i64::MAX,
        edges_bounded(edges@),
    ensures
        r@.len() == edges@.len(),
        forall|i: int| 0 <= i < r@.len() ==> #[trigger] r@[i] == part_region(
            region,
            splitter,
            resolve(
                match splitter { SplitterKind::Row => region.width as int, SplitterKind::Column => region.height as int },
                initial_sizes(edges@),
                edges@,
            ),
            i as nat,
        ),
{
    let total = match splitter { SplitterKind::Row => region.width, SplitterKind::Column => region.height };
    let sizes = ratio_resolve(total, edges);
    let ghost sv = resolve(total as int, initial_sizes(edges@), edges@);
    assert(sizes@.len() == edges@.len()) by {
        lemma_resolve_len(total as int, initial_sizes(edges@), edges@);
        assert(sizes@.map_values(|x: u128| x as int).len() == sizes@.len());
        assert(initial_sizes(edges@).len() == edges@.len());
    }
    assert(forall|k: int| 0 <= k < sizes@.len() ==> sizes@[k] as int == #[trigger] sv[k]) by {
        assert forall|k: int| 0 <= k < sizes@.len() implies sizes@[k] as int == #[trigger] sv[k] by {
            assert(sizes@.map_values(|x: u128| x as int)[k] == sizes@[k] as int);
        }
    }
    let mut out: Vec<Region> = Vec::new();
    let mut offset: usize = 0;
    let mut i: usize = 0;
    while i < sizes.len()
        invariant
            i <= sizes@.len(),
            out@.len() == i,
            sizes@.len() == edges@.len(),
            forall|k: int| 0 <= k < sizes@.len() ==> sizes@[k] as int == #[trigger] sv[k],
            offset as int == part_offset(sv, i as nat),
            forall|k: int| 0 <= k < i ==> #[trigger] out@[k] == part_region(region, splitter, sv, k as nat),
        decreases sizes.len() - i,
    {
        let size = clamp_size(sizes[i]);
        assert(size as int == held(sv[i as int]));
        let rg = match splitter {
            SplitterKind::Row => Region { x: region.x.saturating_add(offset), y: region.y, width: size, height: region.height },
            SplitterKind::Column => Region { x: region.x, y: region.y.saturating_add(offset), width: region.width, height: size },
        };
        assert(rg == part_region(region, splitter, sv, i as nat));
        out.push(rg);
        offset = offset.saturating_add(size);
        assert(offset as int == part_offset(sv, (i + 1) as nat));
        i = i + 1;
    }
    out
}


/// The shape of a layout tree: how a layout is sized among its siblings, whether it is
/// shown, how its area is split among its children, and its children.
pub struct LayoutNode {
    /// What the layout asks of its parent's division.
    pub edge: Edge,
    /// Whether the layout is shown.
    pub visible: bool,
    /// How the layout's area is split among its children.
    pub splitter: SplitterKind,
    /// The layouts below it.
    pub children: Vec<LayoutNode>,
}

/// The positions of the shown children, in order.
pub open spec fn shown(children: Seq<LayoutNode>) -> Seq<int>
    decreases children.len(),
{
    if children.len() == 0 {
        Seq::empty()
    } else {
        shown(children.drop_last()) + (if children.last().visible { seq![children.len() - 1] } else { Seq::empty() })
    }
}

/// A number held at `i64::MAX`, the most a division takes.
pub open spec fn held_size(v: usize) -> usize {
    if v > i64::MAX { i64::MAX as usize } else { v }
}

/// An edge with its numbers held at `i64::MAX`.
pub open spec fn held_edge(e: Edge) -> Edge {
    Edge {
        size: match e.size { Some(s) => Some(held_size(s)), None => None },
        ratio: held_size(e.ratio),
        minimum_size: held_size(e.minimum_size),
    }
}

/// A region with its size held at `i64::MAX`.
pub open spec fn held_region(r: Region) -> Region {
    Region { x: r.x, y: r.y, width: held_size(r.width), height: held_size(r.height) }
}

/// The held edges of the children at the given positions.
pub open spec fn shown_edges(children: Seq<LayoutNode>, idx: Seq<int>) -> Seq<Edge> {
    idx.map_values(|i: int| held_edge(children[i].edge))
}

/// The sizes a node's shown children get of a region.
pub open spec fn child_sizes(t: LayoutNode, region: Region) -> Seq<int> {
    let idx = shown(t.children@);
    let r = held_region(region);
    let total = match t.splitter { SplitterKind::Row => r.width as int, SplitterKind::Column => r.height as int };
    let edges = shown_edges(t.children@, idx);
    resolve(total, initial_sizes(edges), edges)
}

/// The leaves below a node and their regions: a node with no shown child is a leaf
/// filling its region; otherwise its region (held at `i64::MAX`) is divided among the
/// shown children by `divide_region`, and each child's leaves follow in turn. A leaf
/// is named by the path of child positions that leads to it.
pub open spec fn leaf_regions_spec(t: LayoutNode, region: Region) -> Seq<(Seq<usize>, Region)>
    decreases t, 1nat, 0nat,
{
    let idx = shown(t.children@);
    if idx.len() == 0 {
        seq![(Seq::<usize>::empty(), region)]
    } else {
        children_leaves(t, region, idx.len())
    }
}

/// The leaves of the first `k` shown children of a node.
pub open spec fn children_leaves(t: LayoutNode, region: Region, k: nat) -> Seq<(Seq<usize>, Region)>
    decreases t, 0nat, k,
{
    let idx = shown(t.children@);
    if k == 0 || k > idx.len() {
        Seq::empty()
    } else {
        let i = idx[k - 1];
        let before = children_leaves(t, region, (k - 1) as nat);
        if 0 <= i < t.children@.len() {
            let sub = part_region(held_region(region), t.splitter, child_sizes(t, region), (k - 1) as nat);
            proof {
                assert(decreases_to!(t => t.children));
                assert(decreases_to!(t.children => t.children@));
                assert(decreases_to!(t.children@ => t.children@[i]));
            }
            before + leaf_regions_spec(t.children@[i], sub).map_values(
                |l: (Seq<usize>, Region)| (seq![i as usize] + l.0, l.1),
            )
        } else {
            before
        }
    }
}

/// Leaves as paths and regions.
pub open spec fn leaves_view(v: Seq<(Vec<usize>, Region)>) -> Seq<(Seq<usize>, Region)> {
    v.map_values(|l: (Vec<usize>, Region)| (l.0@, l.1))
}

fn held_size_exec(v: usize) -> (r: usize)
    ensures
        r == held_size(v),
{
    if v as u64 > i64::MAX as u64 {
        assert(i64::MAX < usize::MAX);
        i64::MAX as usize
    } else {
        v
    }
}

fn held_edge_exec(e: Edge) -> (r: Edge)
    ensures
        r == held_edge(e),
{
    Edge {
        size: match e.size { Some(s) => Some(held_size_exec(s)), None => None },
        ratio: held_size_exec(e.ratio),
        minimum_size: held_size_exec(e.minimum_size),
    }
}

/// The leaves below a layout and their regions, as `leaf_regions_spec` gives them.
pub fn leaf_regions(t: &LayoutNode, region: Region) -> (r: Vec<(Vec<usize>, Region)>)
    ensures
        leaves_view(r@) == leaf_regions_spec(*t, region),
    decreases t,
{
    let mut idx: Vec<usize> = Vec::new();
    let mut edges: Vec<Edge> = Vec::new();
    let mut i: usize = 0;
    while i < t.children.len()
        invariant
            i <= t.children@.len(),
            idx@.map_values(|x: usize| x as int) == shown(t.children@.take(i as int)),
            edges@ == shown_edges(t.children@, shown(t.children@.take(i as int))),
            forall|m: int| 0 <= m < idx@.len() ==> #[trigger] idx@[m] < i,
        decreases t.children.len() - i,
    {
        proof {
            assert(t.children@.take(i + 1).drop_last() =~= t.children@.take(i as int));
            assert(t.children@.take(i + 1).last() == t.children@[i as int]);
        }
        if t.children[i].visible {
            let ghost before = idx@;
            idx.push(i);
            edges.push(held_edge_exec(t.children[i].edge));
            assert(idx@.map_values(|x: usize| x as int) =~= before.map_values(|x: usize| x as int).push(i as int));
        }
        assert(edges@ =~= shown_edges(t.children@, shown(t.children@.take(i + 1))));
        i = i + 1;
    }
    assert(t.children@.take(i as int) =~= t.children@);
    let ghost sidx = shown(t.children@);
    if idx.len() == 0 {
        let mut out: Vec<(Vec<usize>, Region)> = Vec::new();
        out.push((Vec::new(), region));
        assert(leaves_view(out@) =~= seq![(Seq::<usize>::empty(), region)]);
        return out;
    }
    let hr = Region {
        x: region.x,
        y: region.y,
        width: held_size_exec(region.width),
        height: held_size_exec(region.height),
    };
    assert(edges_bounded(edges@)) by {
        assert forall|m: int| 0 <= m < edges@.len() implies {
            &&& (#[trigger] edges@[m]).ratio <= i64::MAX
            &&& edges@[m].minimum_size <= i64::MAX
            &&& match edges@[m].size { Some(s) => s <= i64::MAX, None => true }
        } by {
            assert(edges@[m] == held_edge(t.children@[sidx[m]].edge));
        }
    }
    let regions = divide_region(hr, t.splitter, &edges);
    let mut out: Vec<(Vec<usize>, Region)> = Vec::new();
    let mut k: usize = 0;
    while k < idx.len()
        invariant
            k <= idx@.len(),
            idx@.len() == sidx.len(),
            regions@.len() == idx@.len(),
            idx@.map_values(|x: usize| x as int) == sidx,
            sidx == shown(t.children@),
            forall|m: int| 0 <= m < idx@.len() ==> #[trigger] idx@[m] < t.children@.len(),
            forall|m: int| 0 <= m < regions@.len() ==> #[trigger] regions@[m] == part_region(
                held_region(region), t.splitter, child_sizes(*t, region), m as nat),
            leaves_view(out@) == children_leaves(*t, region, k as nat),
        decreases idx.len() - k,
    {
        let ik = idx[k];
        assert(sidx[k as int] == ik as int);
        let child = &t.children[ik];
        proof {
            assert(decreases_to!(t => t.children));
            assert(decreases_to!(t.children => t.children@));
            assert(decreases_to!(t.children@ => t.children@[ik as int]));
        }
        let sub = regions[k];
        let rec = leaf_regions(child, sub);
        let ghost base = leaves_view(out@);
        let ghost rv = leaves_view(rec@);
        let mut j: usize = 0;
        while j < rec.len()
            invariant
                j <= rec@.len(),
                rv == leaves_view(rec@),
                leaves_view(out@) =~= base + rv.take(j as int).map_values(
                    |l: (Seq<usize>, Region)| (seq![ik] + l.0, l.1)),
            decreases rec.len() - j,
        {
            let mut np: Vec<usize> = Vec::new();
            np.push(ik);
            let p = &rec[j].0;
            let mut q: usize = 0;
            while q < p.len()
                invariant
                    q <= p@.len(),
                    np@ =~= seq![ik] + p@.take(q as int),
                decreases p.len() - q,
            {
                np.push(p[q]);
                assert(p@.take(q + 1) =~= p@.take(q as int).push(p@[q as int]));
                q = q + 1;
            }
            assert(p@.take(q as int) =~= p@);
            let ghost ob = leaves_view(out@);
            out.push((np, rec[j].1));
            proof {
                assert(leaves_view(out@) =~= ob.push((seq![ik] + rv[j as int].0, rv[j as int].1)));
                assert(rv.take(j + 1) =~= rv.take(j as int).push(rv[j as int]));
            }
            j = j + 1;
        }
        assert(rv.take(j as int) =~= rv);
        k = k + 1;
    }
    out
}

proof fn lemma_resolve_len(total: int, sizes: Seq<Option<int>>, edges: Seq<Edge>)
    ensures
        resolve(total, sizes, edges).len() == sizes.len(),
    decreases open_count(sizes),
{
    if open_count(sizes) != 0 {
        let remaining = total - used(sizes);
        if remaining > 0 {
            let den = if open_ratio(sizes, edges) >= 1 { open_ratio(sizes, edges) } else { 1 };
            lemma_first_short(sizes, edges, remaining, den, 0);
            match first_short(sizes, edges, remaining, den, 0) {
                Some(i) => if i < sizes.len() && sizes[i as int] is None && i < edges.len() {
                    lemma_open_count_update(sizes, i as int, min_of(edges[i as int]));
                    lemma_resolve_len(total, sizes.update(i as int, Some(min_of(edges[i as int]))), edges);
                },
                None => {
                    lemma_share_out_len(sizes, edges, remaining, den, 0, 0);
                },
            }
        }
    }
}

proof fn lemma_share_out_len(sizes: Seq<Option<int>>, edges: Seq<Edge>, remaining: int, den: int, i: nat, carry: int)
    ensures
        share_out(sizes, edges, remaining, den, i, carry).len() == if i <= sizes.len() { (sizes.len() - i) as nat } else { 0 },
    decreases sizes.len() - i,
{
    if i < sizes.len() {
        match sizes[i as int] {
            Some(v) => lemma_share_out_len(sizes, edges, remaining, den, i + 1, carry),
            None => {
                let num = remaining * (if i < edges.len() { ratio_of(edges[i as int]) } else { 1 }) + carry;
                lemma_share_out_len(sizes, edges, remaining, den, i + 1, num % den);
            },
        }
    }
}

/// A run of `n` spaces, unstyled.
pub open spec fn gap_seg(n: nat) -> SegView {
    (repeat_spec(' ', n), None::<Style>, None::<ControlType>)
}

/// A region and its rendered lines.
pub type RenderView = (Region, Seq<Seq<SegView>>);

/// Screen line `y` from the renders from `i` on, the cursor at column `cursor`: each
/// render covering the line and starting at or after the cursor adds its line there
/// (spaces before it to reach its column; blank where it has no such line); spaces fill
/// the line to `width`.
pub open spec fn row_compose(renders: Seq<RenderView>, y: nat, width: nat, i: nat, cursor: nat) -> Seq<SegView>
    decreases renders.len() - i,
{
    if i >= renders.len() {
        if cursor < width { seq![gap_seg((width - cursor) as nat)] } else { Seq::empty() }
    } else {
        let rg = renders[i as int].0;
        let lines = renders[i as int].1;
        if rg.y <= y && y < rg.y + rg.height && rg.x >= cursor && rg.width > 0 {
            let k = (y - rg.y) as int;
            (if rg.x > cursor { seq![gap_seg((rg.x - cursor) as nat)] } else { Seq::empty() })
                + (if k < lines.len() { lines[k] } else { seq![gap_seg(rg.width as nat)] })
                + row_compose(renders, y, width, i + 1, (rg.x + rg.width) as nat)
        } else {
            row_compose(renders, y, width, i + 1, cursor)
        }
    }
}

/// The first `h` screen lines, each ended by a newline.
pub open spec fn compose_spec(renders: Seq<RenderView>, width: nat, h: nat) -> Seq<SegView>
    decreases h,
{
    if h == 0 {
        Seq::empty()
    } else {
        compose_spec(renders, width, (h - 1) as nat) + row_compose(renders, (h - 1) as nat, width, 0, 0)
            + seq![(seq!['\n'], None::<Style>, None::<ControlType>)]
    }
}

/// Renders by their values.
pub open spec fn renders_view(v: Seq<LayoutRender>) -> Seq<RenderView> {
    v.map_values(|r: LayoutRender| (r.region, lines_view(r.lines@)))
}

fn gap_segment(n: usize) -> (r: Segment)
    ensures
        seg_view(r) == gap_seg(n as nat),
{
    let mut t = String::new();
    push_repeat(&mut t, ' ', n);
    Segment { text: t, style: None, control: None, link: None }
}

/// The screen lines of regions with their rendered lines, `height` lines of `width`
/// cells (see `compose_spec`).
pub fn compose_regions(renders: &Vec<LayoutRender>, width: usize, height: usize) -> (r: Vec<Segment>)
    ensures
        segs_view(r@) == compose_spec(renders_view(renders@), width as nat, height as nat),
{
    let ghost rv = renders_view(renders@);
    let mut out: Vec<Segment> = Vec::new();
    let mut y: usize = 0;
    while y < height
        invariant
            y <= height,
            rv == renders_view(renders@),
            segs_view(out@) == compose_spec(rv, width as nat, y as nat),
        decreases height - y,
    {
        let ghost b = segs_view(out@);
        let mut cursor: u128 = 0;
        let mut i: usize = 0;
        while i < renders.len()
            invariant
                i <= renders@.len(),
                y < height,
                rv == renders_view(renders@),
                cursor <= 2 * (usize::MAX as u128),
                segs_view(out@) + row_compose(rv, y as nat, width as nat, i as nat, cursor as nat)
                    == b + row_compose(rv, y as nat, width as nat, 0, 0),
            decreases renders.len() - i,
        {
            let rg = renders[i].region;
            let ghost bi = segs_view(out@);
            assert(rv[i as int].0 == rg && rv[i as int].1 == lines_view(renders@[i as int].lines@));
            if rg.y <= y && (y as u128) < (rg.y as u128) + (rg.height as u128) && (rg.x as u128) >= cursor && rg.width > 0 {
                if (rg.x as u128) > cursor {
                    crate::align::push_seg(&mut out, gap_segment((rg.x as u128 - cursor) as usize));
                }
                let k = y - rg.y;
                if k < renders[i].lines.len() {
                    push_all(&mut out, &renders[i].lines[k]);
                } else {
                    crate::align::push_seg(&mut out, gap_segment(rg.width));
                }
                let ghost rest = row_compose(rv, y as nat, width as nat, i as nat + 1, (rg.x + rg.width) as nat);
                assert(segs_view(out@) + rest =~= bi + row_compose(rv, y as nat, width as nat, i as nat, cursor as nat));
                cursor = (rg.x as u128) + (rg.width as u128);
            }
            i = i + 1;
        }
        let ghost bl = segs_view(out@);
        if cursor < width as u128 {
            crate::align::push_seg(&mut out, gap_segment((width as u128 - cursor) as usize));
        }
        assert(segs_view(out@) =~= bl + row_compose(rv, y as nat, width as nat, renders@.len() as nat, cursor as nat));
        crate::align::push_seg(&mut out, Segment::line());
        y = y + 1;
    }
    out
}

} // verus!
