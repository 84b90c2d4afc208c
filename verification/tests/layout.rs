use rich_rs::layout::{compose_regions, divide_region, leaf_regions, ratio_resolve, Edge, LayoutNode, LayoutRender, Region, SplitterKind};
use rich_rs::segment::Segment;

#[test]
fn test_ratio_resolve_respects_fixed_size() {
    let a = Edge { size: Some(3), ratio: 1, minimum_size: 1 };
    let b = Edge { size: None, ratio: 1, minimum_size: 1 };
    let widths = ratio_resolve(10, &vec![a, b]);
    assert_eq!(widths, vec![3, 7]);
}

#[test]
fn test_ratio_resolve_shares_with_remainders() {
    let e = |r: usize| Edge { size: None, ratio: r, minimum_size: 1 };
    assert_eq!(ratio_resolve(10, &vec![e(1), e(1), e(1)]), vec![3, 3, 4]);
    assert_eq!(ratio_resolve(10, &vec![e(1), e(2)]), vec![3, 7]);
}

#[test]
fn test_ratio_resolve_minimum_and_no_room() {
    let small = Edge { size: None, ratio: 1, minimum_size: 4 };
    let big = Edge { size: None, ratio: 3, minimum_size: 1 };
    // The share of the first (10 / 4 = 2.5) does not reach its minimum of 4.
    assert_eq!(ratio_resolve(10, &vec![small, big]), vec![4, 6]);
    let fixed = Edge { size: Some(12), ratio: 1, minimum_size: 1 };
    let flex = Edge { size: None, ratio: 1, minimum_size: 2 };
    assert_eq!(ratio_resolve(10, &vec![fixed, flex]), vec![12, 2]);
}

#[test]
fn test_divide_and_compose_side_by_side() {
    let edges = vec![
        Edge { size: Some(2), ratio: 1, minimum_size: 1 },
        Edge { size: None, ratio: 1, minimum_size: 1 },
    ];
    let regions = divide_region(Region { x: 0, y: 0, width: 5, height: 1 }, SplitterKind::Row, &edges);
    assert_eq!(regions[0], Region { x: 0, y: 0, width: 2, height: 1 });
    assert_eq!(regions[1], Region { x: 2, y: 0, width: 3, height: 1 });
    let renders = vec![
        LayoutRender { region: regions[0], lines: vec![vec![Segment::new("L ")]] },
        LayoutRender { region: regions[1], lines: vec![vec![Segment::new("R  ")]] },
    ];
    let out: String = compose_regions(&renders, 5, 2).iter().map(|s| s.text.to_string()).collect();
    assert_eq!(out, "L R  \n     \n");
}

#[test]
fn divide_region_columns_stack_from_the_top() {
    let e = |r: usize| Edge { size: None, ratio: r, minimum_size: 1 };
    let regions = divide_region(Region { x: 3, y: 4, width: 7, height: 10 }, SplitterKind::Column, &vec![e(1), e(1), e(1)]);
    assert_eq!(regions, vec![
        Region { x: 3, y: 4, width: 7, height: 3 },
        Region { x: 3, y: 7, width: 7, height: 3 },
        Region { x: 3, y: 10, width: 7, height: 4 },
    ]);
}

#[test]
fn leaf_regions_walks_shown_children() {
    let leaf = |visible: bool| LayoutNode {
        edge: Edge { size: None, ratio: 1, minimum_size: 1 },
        visible,
        splitter: SplitterKind::Column,
        children: Vec::new(),
    };
    let inner = LayoutNode {
        edge: Edge { size: Some(4), ratio: 1, minimum_size: 1 },
        visible: true,
        splitter: SplitterKind::Column,
        children: vec![leaf(true), leaf(true)],
    };
    let root = LayoutNode {
        edge: Edge { size: None, ratio: 1, minimum_size: 1 },
        visible: true,
        splitter: SplitterKind::Row,
        children: vec![inner, leaf(false), leaf(true)],
    };
    let leaves = leaf_regions(&root, Region { x: 0, y: 0, width: 10, height: 4 });
    assert_eq!(leaves, vec![
        (vec![0, 0], Region { x: 0, y: 0, width: 4, height: 2 }),
        (vec![0, 1], Region { x: 0, y: 2, width: 4, height: 2 }),
        (vec![2], Region { x: 4, y: 0, width: 6, height: 4 }),
    ]);
    let single = leaf_regions(&leaf(true), Region { x: 1, y: 2, width: 3, height: 4 });
    assert_eq!(single, vec![(vec![], Region { x: 1, y: 2, width: 3, height: 4 })]);
}
