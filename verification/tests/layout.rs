use stretch::flex::{
    cache_hit, container, distribute_apply, justify_offset, line_offset, new_item, rounded, ChildInfo,
    FlexItem, Shares,
};
use stretch::forest::{FixedMeasure, Forest, NodeId};
use stretch::geometry::{Point, Rect, Size};
use stretch::number::Number;
use stretch::result::{Cache, ComputeResult, Layout};
use stretch::scalar::Scalar;
use stretch::style::{
    AlignContent, AlignItems, AlignSelf, Dimension, FlexDirection, FlexWrap, JustifyContent,
    PositionType, Style,
};

fn s(v: f64) -> Scalar {
    Scalar::from_raw((v * 1_000_000.0).round() as i64)
}

fn points(v: f64) -> Dimension {
    Dimension::Points(s(v))
}

fn sized(width: f64, height: f64) -> Style {
    Style { size: Size { width: points(width), height: points(height) }, ..Default::default() }
}

/// The box of a node as (x, y, width, height) in whole layout units.
fn frame(forest: &Forest<FixedMeasure>, node: NodeId) -> (i64, i64, i64, i64) {
    let l = forest.layout(node).unwrap();
    for v in [l.location.x, l.location.y, l.size.width, l.size.height] {
        assert_eq!(v.raw % 1_000_000, 0);
    }
    (
        l.location.x.raw / 1_000_000,
        l.location.y.raw / 1_000_000,
        l.size.width.raw / 1_000_000,
        l.size.height.raw / 1_000_000,
    )
}

fn row_of(root: Style, children: &[Style]) -> (Forest<FixedMeasure>, NodeId, Vec<NodeId>) {
    let mut forest: Forest<FixedMeasure> = Forest::new();
    let ids: Vec<NodeId> = children.iter().map(|c| forest.new_node(*c, vec![]).unwrap()).collect();
    let root = forest.new_node(root, ids.clone()).unwrap();
    forest.compute_layout(root, Size::undefined()).unwrap();
    (forest, root, ids)
}

#[test]
fn equal_shares_are_rounded_without_gaps() {
    let grow = Style { flex_grow: s(1.0), ..Default::default() };
    let (forest, root, kids) = row_of(sized(100.0, 100.0), &[grow, grow, grow]);
    assert_eq!(frame(&forest, root), (0, 0, 100, 100));
    assert_eq!(frame(&forest, kids[0]), (0, 0, 33, 100));
    assert_eq!(frame(&forest, kids[1]), (33, 0, 34, 100));
    assert_eq!(frame(&forest, kids[2]), (67, 0, 33, 100));
}

#[test]
fn items_shrink_in_proportion_to_their_basis() {
    let (forest, _, kids) = row_of(sized(100.0, 10.0), &[sized(100.0, 10.0), sized(300.0, 10.0)]);
    assert_eq!(frame(&forest, kids[0]), (0, 0, 25, 10));
    assert_eq!(frame(&forest, kids[1]), (25, 0, 75, 10));
}

#[test]
fn items_wrap_onto_lines() {
    let root = Style {
        flex_wrap: FlexWrap::Wrap,
        size: Size { width: points(100.0), ..Default::default() },
        ..Default::default()
    };
    let child = sized(40.0, 10.0);
    let (forest, root, kids) = row_of(root, &[child, child, child]);
    assert_eq!(frame(&forest, root), (0, 0, 100, 20));
    assert_eq!(frame(&forest, kids[0]), (0, 0, 40, 10));
    assert_eq!(frame(&forest, kids[1]), (40, 0, 40, 10));
    assert_eq!(frame(&forest, kids[2]), (0, 10, 40, 10));
}

#[test]
fn wrapped_lines_run_backwards_with_wrap_reverse() {
    let root = Style {
        flex_wrap: FlexWrap::WrapReverse,
        align_content: AlignContent::FlexStart,
        size: Size { width: points(100.0), height: points(50.0) },
        ..Default::default()
    };
    let child = sized(60.0, 10.0);
    let (forest, _, kids) = row_of(root, &[child, child]);
    assert_eq!(frame(&forest, kids[0]), (0, 40, 60, 10));
    assert_eq!(frame(&forest, kids[1]), (0, 30, 60, 10));
}

#[test]
fn lines_stretch_over_a_definite_cross_size() {
    let root = Style {
        flex_wrap: FlexWrap::Wrap,
        size: Size { width: points(100.0), height: points(60.0) },
        ..Default::default()
    };
    let child = Style { size: Size { width: points(60.0), ..Default::default() }, ..Default::default() };
    let (forest, _, kids) = row_of(root, &[child, child]);
    assert_eq!(frame(&forest, kids[0]), (0, 0, 60, 30));
    assert_eq!(frame(&forest, kids[1]), (0, 30, 60, 30));
}

#[test]
fn justify_content_spreads_free_space() {
    let child = sized(20.0, 10.0);
    let expect = [
        (JustifyContent::FlexStart, [0, 20, 40]),
        (JustifyContent::FlexEnd, [40, 60, 80]),
        (JustifyContent::Center, [20, 40, 60]),
        (JustifyContent::SpaceBetween, [0, 40, 80]),
        (JustifyContent::SpaceEvenly, [10, 40, 70]),
    ];
    for (justify, xs) in expect {
        let root = Style { justify_content: justify, ..sized(100.0, 10.0) };
        let (forest, _, kids) = row_of(root, &[child, child, child]);
        for i in 0..3 {
            assert_eq!(frame(&forest, kids[i]), (xs[i], 0, 20, 10));
        }
    }
    let root = Style { justify_content: JustifyContent::SpaceAround, ..sized(120.0, 10.0) };
    let (forest, _, kids) = row_of(root, &[child, child, child]);
    assert_eq!(frame(&forest, kids[0]), (10, 0, 20, 10));
    assert_eq!(frame(&forest, kids[1]), (50, 0, 20, 10));
    assert_eq!(frame(&forest, kids[2]), (90, 0, 20, 10));
}

#[test]
fn reversed_rows_start_at_the_far_end() {
    let root = Style { flex_direction: FlexDirection::RowReverse, ..sized(100.0, 10.0) };
    let child = sized(20.0, 10.0);
    let (forest, _, kids) = row_of(root, &[child, child]);
    assert_eq!(frame(&forest, kids[0]), (80, 0, 20, 10));
    assert_eq!(frame(&forest, kids[1]), (60, 0, 20, 10));
}

#[test]
fn align_items_places_on_the_cross_axis() {
    let child = sized(20.0, 20.0);
    let expect = [
        (AlignItems::FlexStart, 0),
        (AlignItems::FlexEnd, 80),
        (AlignItems::Center, 40),
        (AlignItems::Stretch, 0),
    ];
    for (align, y) in expect {
        let root = Style { align_items: align, ..sized(100.0, 100.0) };
        let (forest, _, kids) = row_of(root, &[child]);
        assert_eq!(frame(&forest, kids[0]), (0, y, 20, 20));
    }
    let own = Style { align_self: AlignSelf::FlexEnd, ..child };
    let (forest, _, kids) = row_of(sized(100.0, 100.0), &[own]);
    assert_eq!(frame(&forest, kids[0]), (0, 80, 20, 20));
}

#[test]
fn auto_margins_take_the_free_space() {
    let pushed = Style {
        margin: Rect { start: Dimension::Auto, ..Default::default() },
        ..sized(20.0, 10.0)
    };
    let (forest, _, kids) = row_of(sized(100.0, 50.0), &[pushed]);
    assert_eq!(frame(&forest, kids[0]), (80, 0, 20, 10));

    let centred = Style {
        margin: Rect {
            start: Dimension::Auto,
            end: Dimension::Auto,
            top: Dimension::Auto,
            bottom: Dimension::Auto,
        },
        ..sized(20.0, 10.0)
    };
    let (forest, _, kids) = row_of(sized(100.0, 50.0), &[centred]);
    assert_eq!(frame(&forest, kids[0]), (40, 20, 20, 10));
}

#[test]
fn padding_and_border_shrink_the_content_box() {
    let root = Style {
        padding: Rect { start: points(5.0), end: points(5.0), top: points(5.0), bottom: points(5.0) },
        border: Rect { start: points(1.0), end: points(1.0), top: points(1.0), bottom: points(1.0) },
        ..sized(100.0, 50.0)
    };
    let grow = Style { flex_grow: s(1.0), ..Default::default() };
    let (forest, _, kids) = row_of(root, &[grow]);
    assert_eq!(frame(&forest, kids[0]), (6, 6, 88, 38));
}

#[test]
fn absolute_children_are_placed_by_their_insets() {
    let inset = Style {
        position_type: PositionType::Absolute,
        position: Rect { start: points(10.0), top: points(20.0), ..Default::default() },
        margin: Rect { start: points(5.0), ..Default::default() },
        ..sized(30.0, 30.0)
    };
    let flow = sized(40.0, 40.0);
    let (forest, _, kids) = row_of(sized(100.0, 100.0), &[inset, flow]);
    assert_eq!(frame(&forest, kids[0]), (15, 20, 30, 30));
    assert_eq!(frame(&forest, kids[1]), (0, 0, 40, 40));
    assert_eq!(forest.layout(kids[0]).unwrap().order, 0);
    assert_eq!(forest.layout(kids[1]).unwrap().order, 1);

    let far = Style {
        position_type: PositionType::Absolute,
        position: Rect { end: points(10.0), bottom: points(20.0), ..Default::default() },
        ..sized(30.0, 30.0)
    };
    let (forest, _, kids) = row_of(sized(100.0, 100.0), &[far]);
    assert_eq!(frame(&forest, kids[0]), (60, 50, 30, 30));
}

#[test]
fn absolute_insets_need_no_margin() {
    let plain = Style {
        position_type: PositionType::Absolute,
        position: Rect { start: points(10.0), top: points(20.0), ..Default::default() },
        ..sized(30.0, 30.0)
    };
    let (forest, _, kids) = row_of(sized(100.0, 100.0), &[plain]);
    assert_eq!(frame(&forest, kids[0]), (10, 20, 30, 30));

    let margin_only = Style {
        position_type: PositionType::Absolute,
        margin: Rect { start: points(10.0), top: points(20.0), ..Default::default() },
        ..sized(30.0, 30.0)
    };
    let (forest, _, kids) = row_of(sized(100.0, 100.0), &[margin_only]);
    assert_eq!(frame(&forest, kids[0]), (0, 0, 30, 30));

    let filling = Style {
        position_type: PositionType::Absolute,
        position: Rect {
            start: points(10.0),
            end: points(20.0),
            top: points(5.0),
            bottom: points(15.0),
        },
        ..Default::default()
    };
    let (forest, _, kids) = row_of(sized(100.0, 100.0), &[filling]);
    assert_eq!(frame(&forest, kids[0]), (10, 5, 70, 80));
}

#[test]
fn shares_of_free_space_are_cut_once() {
    let grow = Style { flex_grow: s(1.0), ..Default::default() };
    let (forest, _, kids) = row_of(sized(4.5, 10.0), &[grow, grow, grow]);
    assert_eq!(frame(&forest, kids[0]), (0, 0, 2, 10));
    assert_eq!(frame(&forest, kids[1]), (2, 0, 1, 10));
    assert_eq!(frame(&forest, kids[2]), (3, 0, 2, 10));
}

#[test]
fn growing_items_take_exact_shares() {
    let style = Style { flex_direction: FlexDirection::Column, ..sized(200.0, 400.0) };
    let cx = container(NodeId { index: 0 }, style, Size::undefined(), Size::undefined());
    let share = Shares {
        growing: true,
        free_space: s(120.0),
        sum_grow: s(3.0),
        sum_shrink: s(2.0),
        sum_scaled: s(0.0),
    };
    let one = ChildInfo { style: Style { flex_grow: s(1.0), ..Default::default() }, has_measure: false };
    let two = ChildInfo { style: Style { flex_grow: s(2.0), ..Default::default() }, has_measure: false };
    let first = FlexItem { flex_basis: s(240.0), ..new_item(NodeId { index: 1 }, 0, one.style, cx) };
    let second = FlexItem { flex_basis: s(40.0), ..new_item(NodeId { index: 2 }, 1, two.style, cx) };
    assert_eq!(distribute_apply(first, one, cx, share).target_size.height, s(280.0));
    assert_eq!(distribute_apply(second, two, cx, share).target_size.height, s(120.0));
    let third = Shares { free_space: s(4.5), ..share };
    assert_eq!(
        distribute_apply(FlexItem { flex_basis: s(0.0), ..first }, one, cx, third).target_size.height,
        s(1.5)
    );
}

#[test]
fn shrinking_items_take_exact_shares() {
    let cx = container(NodeId { index: 0 }, sized(100.0, 10.0), Size::undefined(), Size::undefined());
    let info = ChildInfo { style: Style::default(), has_measure: false };
    let share = Shares {
        growing: false,
        free_space: s(-100.0),
        sum_grow: s(0.0),
        sum_shrink: s(3.0),
        sum_scaled: s(300.0),
    };
    let item = FlexItem {
        flex_basis: s(100.0),
        inner_flex_basis: s(100.0),
        ..new_item(NodeId { index: 1 }, 0, info.style, cx)
    };
    assert_eq!(distribute_apply(item, info, cx, share).target_size.width.raw, 66_666_667);
    let frozen = FlexItem { frozen: true, target_size: Size { width: s(7.0), height: s(0.0) }, ..item };
    assert_eq!(distribute_apply(frozen, info, cx, share), frozen);
}


#[test]
fn absolute_children_without_insets_follow_the_container() {
    let child = Style { position_type: PositionType::Absolute, ..sized(30.0, 30.0) };
    let root = Style {
        justify_content: JustifyContent::Center,
        align_items: AlignItems::FlexEnd,
        ..sized(100.0, 100.0)
    };
    let (forest, _, kids) = row_of(root, &[child]);
    assert_eq!(frame(&forest, kids[0]), (35, 70, 30, 30));
}

#[test]
fn relative_offsets_move_the_item() {
    let moved = Style {
        position: Rect { start: points(7.0), bottom: points(3.0), ..Default::default() },
        ..sized(20.0, 20.0)
    };
    let root = Style { align_items: AlignItems::FlexStart, ..sized(100.0, 100.0) };
    let (forest, _, kids) = row_of(root, &[moved, sized(20.0, 20.0)]);
    assert_eq!(frame(&forest, kids[0]), (7, -3, 20, 20));
    assert_eq!(frame(&forest, kids[1]), (20, 0, 20, 20));
}

#[test]
fn aspect_ratio_gives_the_flex_basis() {
    let ratio = Style { aspect_ratio: Number::Defined(s(2.0)), ..Default::default() };
    let (forest, _, kids) = row_of(sized(100.0, 30.0), &[ratio]);
    assert_eq!(frame(&forest, kids[0]), (0, 0, 60, 30));
}

#[test]
fn baselines_align_the_first_leaves() {
    let mut forest: Forest<FixedMeasure> = Forest::new();
    let tall = forest.new_node(sized(10.0, 30.0), vec![]).unwrap();
    let inner = forest.new_node(sized(10.0, 10.0), vec![]).unwrap();
    let short = forest.new_node(sized(10.0, 20.0), vec![inner]).unwrap();
    let root = forest
        .new_node(Style { align_items: AlignItems::Baseline, ..sized(100.0, 100.0) }, vec![tall, short])
        .unwrap();
    forest.compute_layout(root, Size::undefined()).unwrap();
    assert_eq!(frame(&forest, tall), (0, 0, 10, 30));
    assert_eq!(frame(&forest, short), (10, 20, 10, 20));
}

#[test]
fn children_stay_inside_a_definite_parent() {
    let root = Style {
        flex_wrap: FlexWrap::Wrap,
        padding: Rect { start: points(3.0), end: points(3.0), top: points(3.0), bottom: points(3.0) },
        ..sized(90.0, 90.0)
    };
    let child = Style { flex_grow: s(1.0), ..sized(25.0, 25.0) };
    let (forest, root, kids) = row_of(root, &[child, child, child, child, child]);
    let (_, _, width, height) = frame(&forest, root);
    for kid in kids {
        let (x, y, w, h) = frame(&forest, kid);
        assert!(x >= 0 && y >= 0);
        assert!(x + w <= width && y + h <= height);
    }
}

#[test]
fn rounding_twice_changes_nothing() {
    let grow = Style { flex_grow: s(1.0), ..Default::default() };
    let mut forest: Forest<FixedMeasure> = Forest::new();
    let leaves: Vec<NodeId> = (0..3).map(|_| forest.new_node(grow, vec![]).unwrap()).collect();
    let group = forest.new_node(grow, leaves.clone()).unwrap();
    let side = forest.new_node(grow, vec![]).unwrap();
    let odd = forest.new_node(grow, vec![]).unwrap();
    let root = forest.new_node(sized(100.0, 33.0), vec![group, side, odd]).unwrap();
    forest.compute_layout(root, Size::undefined()).unwrap();
    let all = [root, group, side, odd, leaves[0], leaves[1], leaves[2]];
    let once: Vec<Layout> = all.iter().map(|n| forest.layout(*n).unwrap()).collect();
    assert_eq!(frame(&forest, group), (0, 0, 33, 33));
    assert_eq!(frame(&forest, side), (33, 0, 34, 33));
    assert_eq!(frame(&forest, leaves[1]), (11, 0, 11, 33));
    forest.round_layout(root, Scalar::zero(), Scalar::zero());
    let twice: Vec<Layout> = all.iter().map(|n| forest.layout(*n).unwrap()).collect();
    assert_eq!(once, twice);
}

#[test]
fn rounded_keeps_edges_on_whole_units() {
    let layout = Layout {
        order: 4,
        size: Size { width: s(10.4), height: s(10.5) },
        location: Point { x: s(0.3), y: s(0.5) },
    };
    let r = rounded(layout, s(1.3), s(2.0));
    assert_eq!(r.order, 4);
    assert_eq!(r.location, Point { x: s(0.0), y: s(1.0) });
    assert_eq!(r.size, Size { width: s(10.0), height: s(10.0) });
    let r = rounded(layout, s(1.2), s(2.25));
    assert_eq!(r.size, Size { width: s(10.0), height: s(10.0) });
    let r = rounded(layout, s(0.2), s(0.0));
    assert_eq!(r.size, Size { width: s(10.0), height: s(10.0) });
    let r = rounded(layout, s(0.2), s(0.0));
    assert_eq!(rounded(r, s(0.0), s(0.0)), r);
}

#[test]
fn remembered_results_answer_matching_requests() {
    let defined = |w: f64, h: f64| Size { width: Number::Defined(s(w)), height: Number::Defined(s(h)) };
    let cache = Cache {
        node_size: Size { width: Number::Undefined, height: Number::Defined(s(20.0)) },
        parent_size: defined(100.0, 100.0),
        perform_layout: false,
        result: ComputeResult { size: Size { width: s(50.0), height: s(20.0) } },
    };
    assert!(cache_hit(cache, cache.node_size, cache.parent_size, false));
    assert!(!cache_hit(cache, cache.node_size, cache.parent_size, true));
    assert!(cache_hit(cache, defined(50.0, 20.0), defined(1.0, 1.0), false));
    assert!(!cache_hit(cache, defined(50.000001, 20.0), defined(1.0, 1.0), false));
    assert!(!cache_hit(cache, Size::undefined(), cache.parent_size, false));
    let full = Cache { perform_layout: true, ..cache };
    assert!(cache_hit(full, cache.node_size, cache.parent_size, true));
    assert!(cache_hit(full, cache.node_size, defined(7.0, 7.0), false));
}

#[test]
fn justify_offsets_by_rule() {
    let free = s(60.0);
    let zero = s(0.0);
    assert_eq!(justify_offset(JustifyContent::FlexStart, false, true, free, 3), zero);
    assert_eq!(justify_offset(JustifyContent::FlexStart, true, true, free, 3), free);
    assert_eq!(justify_offset(JustifyContent::FlexStart, true, false, free, 3), zero);
    assert_eq!(justify_offset(JustifyContent::FlexEnd, false, true, free, 3), free);
    assert_eq!(justify_offset(JustifyContent::FlexEnd, true, true, free, 3), zero);
    assert_eq!(justify_offset(JustifyContent::Center, false, true, free, 3), s(30.0));
    assert_eq!(justify_offset(JustifyContent::Center, false, false, free, 3), zero);
    assert_eq!(justify_offset(JustifyContent::SpaceBetween, false, true, free, 3), zero);
    assert_eq!(justify_offset(JustifyContent::SpaceBetween, false, false, free, 3), s(30.0));
    assert_eq!(justify_offset(JustifyContent::SpaceAround, false, true, free, 3), s(10.0));
    assert_eq!(justify_offset(JustifyContent::SpaceAround, false, false, free, 3), s(20.0));
    assert_eq!(justify_offset(JustifyContent::SpaceEvenly, false, true, free, 3), s(15.0));
    assert_eq!(justify_offset(JustifyContent::SpaceEvenly, false, false, free, 3), s(15.0));
}

#[test]
fn line_offsets_by_rule() {
    let free = s(60.0);
    let zero = s(0.0);
    assert_eq!(line_offset(AlignContent::FlexStart, false, true, free, 3), zero);
    assert_eq!(line_offset(AlignContent::FlexStart, true, true, free, 3), free);
    assert_eq!(line_offset(AlignContent::FlexEnd, false, true, free, 3), free);
    assert_eq!(line_offset(AlignContent::FlexEnd, true, true, free, 3), zero);
    assert_eq!(line_offset(AlignContent::Center, false, true, free, 3), s(30.0));
    assert_eq!(line_offset(AlignContent::Center, false, false, free, 3), zero);
    assert_eq!(line_offset(AlignContent::Stretch, false, true, free, 3), zero);
    assert_eq!(line_offset(AlignContent::SpaceBetween, false, true, free, 3), zero);
    assert_eq!(line_offset(AlignContent::SpaceBetween, false, false, free, 3), s(30.0));
    assert_eq!(line_offset(AlignContent::SpaceAround, false, true, free, 3), s(10.0));
    assert_eq!(line_offset(AlignContent::SpaceAround, false, false, free, 3), s(20.0));
}

#[test]
fn root_bounds_are_applied_after_a_first_pass() {
    let root = Style {
        min_size: Size { width: points(50.0), ..Default::default() },
        max_size: Size { height: points(15.0), ..Default::default() },
        ..Default::default()
    };
    let (forest, root, kids) = row_of(root, &[sized(20.0, 30.0)]);
    assert_eq!(frame(&forest, root), (0, 0, 50, 15));
    assert_eq!(frame(&forest, kids[0]), (0, 0, 20, 30));
}

#[test]
fn hidden_subtrees_are_blank() {
    let mut forest: Forest<FixedMeasure> = Forest::new();
    let deep = forest.new_node(sized(5.0, 5.0), vec![]).unwrap();
    let deeper = forest.new_node(sized(5.0, 5.0), vec![]).unwrap();
    let hidden = forest
        .new_node(
            Style { display: stretch::style::Display::Hidden, ..sized(50.0, 50.0) },
            vec![deep, deeper],
        )
        .unwrap();
    let shown = forest.new_node(sized(10.0, 10.0), vec![]).unwrap();
    let root = forest.new_node(sized(100.0, 100.0), vec![shown, hidden]).unwrap();
    forest.compute_layout(root, Size::undefined()).unwrap();
    assert_eq!(frame(&forest, hidden), (0, 0, 0, 0));
    assert_eq!(frame(&forest, deep), (0, 0, 0, 0));
    assert_eq!(frame(&forest, deeper), (0, 0, 0, 0));
    assert_eq!(forest.layout(hidden).unwrap().order, 1);
    assert_eq!(forest.layout(deep).unwrap().order, 0);
    assert_eq!(forest.layout(deeper).unwrap().order, 1);
    assert_eq!(frame(&forest, shown), (0, 0, 10, 10));
}

#[test]
fn available_space_resolves_the_root() {
    let mut forest: Forest<FixedMeasure> = Forest::new();
    let child = forest.new_node(Style { flex_grow: s(1.0), ..Default::default() }, vec![]).unwrap();
    let root = forest
        .new_node(
            Style {
                size: Size { width: Dimension::Percent(s(0.5)), height: Dimension::Percent(s(0.25)) },
                ..Default::default()
            },
            vec![child],
        )
        .unwrap();
    let space = Size { width: Number::Defined(s(300.0)), height: Number::Defined(s(200.0)) };
    forest.compute_layout(root, space).unwrap();
    assert_eq!(frame(&forest, root), (0, 0, 150, 50));
    assert_eq!(frame(&forest, child), (0, 0, 150, 50));
}

#[test]
fn centred_overflow_starts_before_the_container() {
    let wide = Style { flex_shrink: s(0.0), ..sized(200.0, 10.0) };
    let root = Style { justify_content: JustifyContent::Center, ..sized(100.0, 10.0) };
    let (forest, _, kids) = row_of(root, &[wide]);
    assert_eq!(frame(&forest, kids[0]), (-50, 0, 200, 10));
}

#[test]
fn positions_are_not_negative_without_overflow() {
    for justify in [
        JustifyContent::FlexStart,
        JustifyContent::FlexEnd,
        JustifyContent::Center,
        JustifyContent::SpaceBetween,
        JustifyContent::SpaceAround,
        JustifyContent::SpaceEvenly,
    ] {
        for direction in [
            FlexDirection::Row,
            FlexDirection::RowReverse,
            FlexDirection::Column,
            FlexDirection::ColumnReverse,
        ] {
            let root = Style {
                justify_content: justify,
                flex_direction: direction,
                align_items: AlignItems::Center,
                ..sized(100.0, 100.0)
            };
            let child = Style {
                margin: Rect { start: points(3.0), end: points(4.0), top: points(5.0), bottom: points(6.0) },
                ..sized(20.0, 20.0)
            };
            let (forest, root, kids) = row_of(root, &[child, child, child]);
            let (_, _, width, height) = frame(&forest, root);
            for kid in kids {
                let (x, y, w, h) = frame(&forest, kid);
                assert!(x >= 0 && y >= 0);
                assert!(x + w <= width && y + h <= height);
            }
        }
    }
}

#[test]
fn rounding_follows_edges_in_the_root_frame() {
    let mut forest: Forest<FixedMeasure> = Forest::new();
    let inner = forest
        .new_node(
            Style {
                margin: Rect { start: points(0.5), ..Default::default() },
                ..sized(9.5, 5.0)
            },
            vec![],
        )
        .unwrap();
    let outer = forest
        .new_node(
            Style {
                align_items: AlignItems::FlexStart,
                margin: Rect { start: points(0.5), ..Default::default() },
                ..sized(10.0, 10.0)
            },
            vec![inner],
        )
        .unwrap();
    let root = forest
        .new_node(Style { align_items: AlignItems::FlexStart, ..sized(100.0, 20.0) }, vec![outer])
        .unwrap();
    forest.compute_layout(root, Size::undefined()).unwrap();
    // The outer box spans 0.5 to 10.5 and the inner one 1 to 10.5 from the
    // root's origin: both end at 11 after rounding. Positions are rounded
    // relative to the parent, so the inner box, at 1 in a box of width 10,
    // is 10 wide.
    assert_eq!(frame(&forest, outer), (1, 0, 10, 10));
    assert_eq!(frame(&forest, inner), (1, 0, 10, 5));
}
