use stretch::forest::{Error, FixedMeasure, Forest, MeasureError, MeasureFunc, NodeId};
use stretch::geometry::Size;
use stretch::number::Number;
use stretch::scalar::Scalar;
use stretch::style::{Dimension, FlexDirection, Style};

fn s(v: f32) -> Scalar {
    Scalar::from_raw((v as f64 * 1_000_000.0).round() as i64)
}

fn units(v: Scalar) -> f32 {
    (v.raw as f64 / 1_000_000.0) as f32
}

fn points(v: f32) -> Dimension {
    Dimension::Points(s(v))
}

/// A measurer that fails on every request.
struct Failing;

impl MeasureFunc for Failing {
    fn measure(&self, _available: Size<Number>) -> Result<Size<Scalar>, MeasureError> {
        Err(MeasureError {})
    }
}

/// A measurer for content that wraps: it takes the width on offer, up to its
/// natural width, and as many lines of height 10 as that needs.
struct Wrapping {
    natural: f32,
}

impl MeasureFunc for Wrapping {
    fn measure(&self, available: Size<Number>) -> Result<Size<Scalar>, MeasureError> {
        let width = match available.width {
            Number::Defined(w) => units(w).min(self.natural),
            Number::Undefined => self.natural,
        };
        let lines = if width > 0.0 { (self.natural / width).ceil() } else { 1.0 };
        Ok(Size { width: s(width), height: s(lines * 10.0) })
    }
}

fn three_level() -> (Forest<FixedMeasure>, NodeId, NodeId, NodeId) {
    let mut forest: Forest<FixedMeasure> = Forest::new();
    let leaf = forest.new_node(Style::default(), vec![]).unwrap();
    let middle = forest.new_node(Style::default(), vec![leaf]).unwrap();
    let root = forest.new_node(Style::default(), vec![middle]).unwrap();
    (forest, root, middle, leaf)
}

#[test]
fn new_node_links_children() {
    let (forest, root, middle, leaf) = three_level();
    assert_eq!(forest.node_count(), 3);
    assert_eq!(forest.children(root).unwrap(), &vec![middle]);
    assert_eq!(forest.children(middle).unwrap(), &vec![leaf]);
    assert_eq!(forest.children(leaf).unwrap(), &Vec::<NodeId>::new());
    assert_eq!(forest.parent(leaf).unwrap(), Some(middle));
    assert_eq!(forest.parent(middle).unwrap(), Some(root));
    assert_eq!(forest.parent(root).unwrap(), None);
    assert_eq!(forest.child_count(root).unwrap(), 1);
}

#[test]
fn new_node_rejects_attached_child() {
    let (mut forest, _root, _middle, leaf) = three_level();
    assert_eq!(forest.new_node(Style::default(), vec![leaf]), Err(Error::ChildAlreadyAttached));
    assert_eq!(forest.node_count(), 3);
}

#[test]
fn new_node_rejects_repeated_child() {
    let mut forest: Forest<FixedMeasure> = Forest::new();
    let a = forest.new_node(Style::default(), vec![]).unwrap();
    assert_eq!(forest.new_node(Style::default(), vec![a, a]), Err(Error::ChildAlreadyAttached));
    assert_eq!(forest.parent(a).unwrap(), None);
}

#[test]
fn new_node_rejects_unknown_child() {
    let mut forest: Forest<FixedMeasure> = Forest::new();
    let a = forest.new_node(Style::default(), vec![]).unwrap();
    let ghost = NodeId { index: 17 };
    assert_eq!(forest.new_node(Style::default(), vec![a, ghost]), Err(Error::InvalidNode(ghost)));
    assert_eq!(forest.parent(a).unwrap(), None);
}

#[test]
fn unknown_node_is_reported() {
    let (mut forest, root, _, _) = three_level();
    let ghost = NodeId { index: 99 };
    assert_eq!(forest.dirty(ghost), Err(Error::InvalidNode(ghost)));
    assert_eq!(forest.layout(ghost), Err(Error::InvalidNode(ghost)));
    assert_eq!(forest.style(ghost).err(), Some(Error::InvalidNode(ghost)));
    assert_eq!(forest.children(ghost).err(), Some(Error::InvalidNode(ghost)));
    assert_eq!(forest.mark_dirty(ghost), Err(Error::InvalidNode(ghost)));
    assert_eq!(forest.set_style(ghost, Style::default()), Err(Error::InvalidNode(ghost)));
    assert_eq!(forest.set_measure(ghost, None), Err(Error::InvalidNode(ghost)));
    assert_eq!(forest.add_child(ghost, root), Err(Error::InvalidNode(ghost)));
    assert_eq!(forest.add_child(root, ghost), Err(Error::InvalidNode(ghost)));
    assert_eq!(forest.set_children(ghost, vec![]), Err(Error::InvalidNode(ghost)));
    assert_eq!(forest.remove_child(ghost, root), Err(Error::InvalidNode(ghost)));
    assert_eq!(forest.remove_child_at_index(ghost, 0), Err(Error::InvalidNode(ghost)));
    assert_eq!(forest.replace_child_at_index(ghost, 0, root), Err(Error::InvalidNode(ghost)));
    assert_eq!(forest.compute_layout(ghost, Size::undefined()), Err(Error::InvalidNode(ghost)));
}

#[test]
fn layout_is_missing_before_the_first_run() {
    let (mut forest, root, middle, leaf) = three_level();
    assert_eq!(forest.layout(root), Err(Error::LayoutNotComputed));
    forest.compute_layout(root, Size::undefined()).unwrap();
    assert!(forest.layout(root).is_ok());
    assert!(forest.layout(middle).is_ok());
    assert!(forest.layout(leaf).is_ok());
}

#[test]
fn new_nodes_are_dirty_until_laid_out() {
    let (mut forest, root, middle, leaf) = three_level();
    assert_eq!(forest.dirty(root), Ok(true));
    assert_eq!(forest.dirty(leaf), Ok(true));
    forest.compute_layout(root, Size::undefined()).unwrap();
    assert_eq!(forest.dirty(root), Ok(false));
    assert_eq!(forest.dirty(middle), Ok(false));
    assert_eq!(forest.dirty(leaf), Ok(false));
}

#[test]
fn set_style_dirties_every_ancestor() {
    let (mut forest, root, middle, leaf) = three_level();
    let other = forest.new_node(Style::default(), vec![]).unwrap();
    forest.add_child(root, other).unwrap();
    forest.compute_layout(root, Size::undefined()).unwrap();
    assert_eq!(forest.dirty(other), Ok(false));

    let style = Style { flex_grow: s(1.0), ..Default::default() };
    forest.set_style(leaf, style).unwrap();
    assert_eq!(forest.style(leaf).unwrap(), style);
    assert_eq!(forest.dirty(leaf), Ok(true));
    assert_eq!(forest.dirty(middle), Ok(true));
    assert_eq!(forest.dirty(root), Ok(true));
    assert_eq!(forest.dirty(other), Ok(false));
}

#[test]
fn mark_dirty_reaches_the_root_only_upwards() {
    let (mut forest, root, middle, leaf) = three_level();
    forest.compute_layout(root, Size::undefined()).unwrap();
    forest.mark_dirty(middle).unwrap();
    assert_eq!(forest.dirty(leaf), Ok(false));
    assert_eq!(forest.dirty(middle), Ok(true));
    assert_eq!(forest.dirty(root), Ok(true));
}

#[test]
fn add_child_appends_and_dirties() {
    let (mut forest, root, middle, _leaf) = three_level();
    forest.compute_layout(root, Size::undefined()).unwrap();
    let extra = forest.new_node(Style::default(), vec![]).unwrap();
    forest.add_child(middle, extra).unwrap();
    assert_eq!(forest.children(middle).unwrap().len(), 2);
    assert_eq!(forest.children(middle).unwrap()[1], extra);
    assert_eq!(forest.parent(extra).unwrap(), Some(middle));
    assert_eq!(forest.dirty(middle), Ok(true));
    assert_eq!(forest.dirty(root), Ok(true));
    assert_eq!(forest.add_child(root, extra), Err(Error::ChildAlreadyAttached));
}

#[test]
fn remove_child_detaches_and_keeps_the_node() {
    let (mut forest, root, middle, leaf) = three_level();
    assert_eq!(forest.remove_child(root, leaf), Err(Error::ChildNotFound));
    assert_eq!(forest.remove_child(middle, leaf), Ok(leaf));
    assert_eq!(forest.parent(leaf).unwrap(), None);
    assert_eq!(forest.children(middle).unwrap().len(), 0);
    assert_eq!(forest.node_count(), 3);
    assert_eq!(forest.remove_child(middle, leaf), Err(Error::ChildNotFound));
    forest.add_child(root, leaf).unwrap();
    assert_eq!(forest.children(root).unwrap(), &vec![middle, leaf]);
}

#[test]
fn remove_child_at_index_checks_the_index() {
    let (mut forest, root, middle, _) = three_level();
    assert_eq!(forest.remove_child_at_index(root, 1), Err(Error::ChildNotFound));
    assert_eq!(forest.remove_child_at_index(root, 0), Ok(middle));
    assert_eq!(forest.parent(middle).unwrap(), None);
}

#[test]
fn replace_child_at_index_swaps_the_child() {
    let (mut forest, root, middle, leaf) = three_level();
    let fresh = forest.new_node(Style::default(), vec![]).unwrap();
    assert_eq!(forest.replace_child_at_index(root, 0, leaf), Err(Error::ChildAlreadyAttached));
    assert_eq!(forest.replace_child_at_index(root, 3, fresh), Err(Error::ChildNotFound));
    assert_eq!(forest.replace_child_at_index(root, 0, fresh), Ok(middle));
    assert_eq!(forest.children(root).unwrap(), &vec![fresh]);
    assert_eq!(forest.parent(middle).unwrap(), None);
    assert_eq!(forest.parent(fresh).unwrap(), Some(root));
}

#[test]
fn set_children_replaces_the_list() {
    let (mut forest, root, middle, _leaf) = three_level();
    let a = forest.new_node(Style::default(), vec![]).unwrap();
    let b = forest.new_node(Style::default(), vec![]).unwrap();
    assert_eq!(forest.set_children(root, vec![a, middle]), Err(Error::ChildAlreadyAttached));
    assert_eq!(forest.children(root).unwrap(), &vec![middle]);
    forest.set_children(root, vec![b, a]).unwrap();
    assert_eq!(forest.children(root).unwrap(), &vec![b, a]);
    assert_eq!(forest.parent(middle).unwrap(), None);
    assert_eq!(forest.parent(a).unwrap(), Some(root));
    assert_eq!(forest.parent(b).unwrap(), Some(root));
}

#[test]
fn ancestor_or_self_walks_the_parents() {
    let (forest, root, middle, leaf) = three_level();
    assert!(forest.ancestor_or_self(root, leaf));
    assert!(forest.ancestor_or_self(middle, leaf));
    assert!(forest.ancestor_or_self(leaf, leaf));
    assert!(!forest.ancestor_or_self(leaf, root));
    assert!(!forest.ancestor_or_self(leaf, middle));
}

#[test]
fn measured_leaf_takes_the_measured_size() {
    let mut forest: Forest<FixedMeasure> = Forest::new();
    let leaf = forest.new_node(Style::default(), vec![]).unwrap();
    forest
        .set_measure(leaf, Some(FixedMeasure { size: Size { width: s(40.0), height: s(25.0) } }))
        .unwrap();
    let root = forest
        .new_node(
            Style { flex_direction: FlexDirection::Column, ..Default::default() },
            vec![leaf],
        )
        .unwrap();
    forest.compute_layout(root, Size::undefined()).unwrap();
    assert_eq!(units(forest.layout(root).unwrap().size.width), 40.0);
    assert_eq!(units(forest.layout(root).unwrap().size.height), 25.0);
    assert_eq!(units(forest.layout(leaf).unwrap().size.width), 40.0);
    assert_eq!(units(forest.layout(leaf).unwrap().size.height), 25.0);
    assert!(forest.measure_calls > 0);
}

#[test]
fn measurer_sees_the_width_on_offer() {
    let mut forest: Forest<Wrapping> = Forest::new();
    let leaf = forest.new_node(Style::default(), vec![]).unwrap();
    forest.set_measure(leaf, Some(Wrapping { natural: 100.0 })).unwrap();
    let root = forest
        .new_node(
            Style {
                flex_direction: FlexDirection::Column,
                size: Size { width: points(50.0), ..Default::default() },
                ..Default::default()
            },
            vec![leaf],
        )
        .unwrap();
    forest.compute_layout(root, Size::undefined()).unwrap();
    assert_eq!(units(forest.layout(leaf).unwrap().size.width), 50.0);
    assert_eq!(units(forest.layout(leaf).unwrap().size.height), 20.0);
    assert_eq!(units(forest.layout(root).unwrap().size.height), 20.0);
}

#[test]
fn failing_measurer_leaves_the_forest_as_it_was() {
    let mut forest: Forest<Failing> = Forest::new();
    let plain = forest
        .new_node(
            Style { size: Size { width: points(10.0), height: points(10.0) }, ..Default::default() },
            vec![],
        )
        .unwrap();
    let root = forest.new_node(Style::default(), vec![plain]).unwrap();
    forest.compute_layout(root, Size::undefined()).unwrap();
    let before_root = forest.layout(root).unwrap();
    let before_plain = forest.layout(plain).unwrap();

    let bad = forest.new_node(Style::default(), vec![]).unwrap();
    forest.set_measure(bad, Some(Failing)).unwrap();
    forest.add_child(root, bad).unwrap();
    assert_eq!(forest.compute_layout(root, Size::undefined()), Err(Error::Measure));
    assert_eq!(forest.layout(root).unwrap(), before_root);
    assert_eq!(forest.layout(plain).unwrap(), before_plain);
    assert_eq!(forest.layout(bad), Err(Error::LayoutNotComputed));
    assert_eq!(forest.dirty(root), Ok(true));
    assert_eq!(forest.dirty(bad), Ok(true));
    assert_eq!(forest.measure_calls, 0);
}

#[test]
fn second_layout_asks_no_measurer_and_changes_nothing() {
    let mut forest: Forest<Wrapping> = Forest::new();
    let leaf = forest.new_node(Style::default(), vec![]).unwrap();
    forest.set_measure(leaf, Some(Wrapping { natural: 73.0 })).unwrap();
    let sibling = forest
        .new_node(Style { flex_grow: s(1.0), ..Default::default() }, vec![])
        .unwrap();
    let root = forest
        .new_node(
            Style { size: Size { width: points(100.0), height: points(31.5) }, ..Default::default() },
            vec![leaf, sibling],
        )
        .unwrap();
    forest.compute_layout(root, Size::undefined()).unwrap();
    let calls = forest.measure_calls;
    let first: Vec<_> = [root, leaf, sibling].iter().map(|n| forest.layout(*n).unwrap()).collect();
    assert!(calls > 0);

    forest.compute_layout(root, Size::undefined()).unwrap();
    let second: Vec<_> = [root, leaf, sibling].iter().map(|n| forest.layout(*n).unwrap()).collect();
    assert_eq!(first, second);
    assert_eq!(forest.measure_calls, calls);
}

#[test]
fn remove_drops_the_subtree() {
    let (mut forest, root, middle, leaf) = three_level();
    let other = forest.new_node(Style::default(), vec![]).unwrap();
    forest.add_child(root, other).unwrap();
    forest.compute_layout(root, Size::undefined()).unwrap();

    assert_eq!(forest.remove(middle), Ok(()));
    assert_eq!(forest.children(root).unwrap(), &vec![other]);
    assert_eq!(forest.dirty(root), Ok(true));
    assert_eq!(forest.dirty(other), Ok(false));
    assert_eq!(forest.parent(other).unwrap(), Some(root));
    for gone in [middle, leaf] {
        assert_eq!(forest.dirty(gone), Err(Error::InvalidNode(gone)));
        assert_eq!(forest.layout(gone), Err(Error::InvalidNode(gone)));
        assert_eq!(forest.children(gone).err(), Some(Error::InvalidNode(gone)));
        assert_eq!(forest.set_style(gone, Style::default()), Err(Error::InvalidNode(gone)));
        assert_eq!(forest.add_child(root, gone), Err(Error::InvalidNode(gone)));
        assert_eq!(forest.add_child(gone, other), Err(Error::InvalidNode(gone)));
        assert_eq!(forest.remove(gone), Err(Error::InvalidNode(gone)));
        assert_eq!(forest.compute_layout(gone, Size::undefined()), Err(Error::InvalidNode(gone)));
    }
    assert_eq!(forest.new_node(Style::default(), vec![leaf]), Err(Error::InvalidNode(leaf)));
    assert_eq!(forest.node_count(), 4);
    forest.compute_layout(root, Size::undefined()).unwrap();
    assert_eq!(forest.dirty(root), Ok(false));
}

#[test]
fn remove_of_a_root_drops_the_tree() {
    let (mut forest, root, middle, leaf) = three_level();
    assert_eq!(forest.remove(root), Ok(()));
    for gone in [root, middle, leaf] {
        assert_eq!(forest.parent(gone), Err(Error::InvalidNode(gone)));
    }
    let fresh = forest.new_node(Style::default(), vec![]).unwrap();
    assert_eq!(fresh, NodeId { index: 3 });
    assert_eq!(forest.dirty(fresh), Ok(true));
    let ghost = NodeId { index: 40 };
    assert_eq!(forest.remove(ghost), Err(Error::InvalidNode(ghost)));
}

#[test]
fn second_layout_of_a_bounded_root_sizes_it_anew() {
    let mut forest: Forest<Wrapping> = Forest::new();
    let leaf = forest.new_node(Style::default(), vec![]).unwrap();
    forest.set_measure(leaf, Some(Wrapping { natural: 100.0 })).unwrap();
    let root = forest
        .new_node(
            Style {
                flex_direction: FlexDirection::Column,
                max_size: Size { width: points(50.0), height: Dimension::Auto },
                ..Default::default()
            },
            vec![leaf],
        )
        .unwrap();
    forest.compute_layout(root, Size::undefined()).unwrap();
    let calls = forest.measure_calls;
    let first = (forest.layout(root).unwrap(), forest.layout(leaf).unwrap());
    assert_eq!(units(first.0.size.width), 50.0);
    assert_eq!(units(first.1.size.width), 50.0);

    forest.compute_layout(root, Size::undefined()).unwrap();
    let second = (forest.layout(root).unwrap(), forest.layout(leaf).unwrap());
    assert_eq!(first, second);
    assert!(forest.measure_calls > calls);
}

#[test]
fn second_layout_of_a_root_within_its_bounds_asks_no_measurer() {
    let mut forest: Forest<Wrapping> = Forest::new();
    let leaf = forest.new_node(Style::default(), vec![]).unwrap();
    forest.set_measure(leaf, Some(Wrapping { natural: 100.0 })).unwrap();
    let root = forest
        .new_node(
            Style {
                flex_direction: FlexDirection::Column,
                size: Size { width: points(60.0), height: points(40.0) },
                min_size: Size { width: points(50.0), height: Dimension::Auto },
                max_size: Size { width: points(80.0), height: points(90.0) },
                ..Default::default()
            },
            vec![leaf],
        )
        .unwrap();
    forest.compute_layout(root, Size::undefined()).unwrap();
    let calls = forest.measure_calls;
    let first = (forest.layout(root).unwrap(), forest.layout(leaf).unwrap());
    assert!(calls > 0);
    assert_eq!(units(first.0.size.width), 60.0);
    assert_eq!(units(first.0.size.height), 40.0);

    forest.compute_layout(root, Size::undefined()).unwrap();
    let second = (forest.layout(root).unwrap(), forest.layout(leaf).unwrap());
    assert_eq!(first, second);
    assert_eq!(forest.measure_calls, calls);
}

#[test]
fn failing_measurer_keeps_the_layout_of_the_root() {
    let mut forest: Forest<Failing> = Forest::new();
    let plain = forest.new_node(Style::default(), vec![]).unwrap();
    let root = forest
        .new_node(
            Style { size: Size { width: points(30.0), height: points(20.0) }, ..Default::default() },
            vec![plain],
        )
        .unwrap();
    forest.compute_layout(root, Size::undefined()).unwrap();
    let before = forest.layout(root).unwrap();
    let before_plain = forest.layout(plain).unwrap();
    assert_eq!(units(before.size.width), 30.0);

    forest.set_measure(plain, Some(Failing)).unwrap();
    forest
        .set_style(
            root,
            Style { size: Size { width: points(80.0), height: Dimension::Auto }, ..Default::default() },
        )
        .unwrap();
    assert_eq!(forest.compute_layout(root, Size::undefined()), Err(Error::Measure));
    assert_eq!(forest.layout(root).unwrap(), before);
    assert_eq!(forest.layout(plain).unwrap(), before_plain);
}
