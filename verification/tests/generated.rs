use stretch::forest::{FixedMeasure, Forest, NodeId};
use stretch::geometry::{Point, Rect, Size};
use stretch::number::Number;
use stretch::scalar::Scalar;
use stretch::style::{AlignItems, Dimension, Display, FlexDirection, JustifyContent, Style};

/// A styled node with its children, as a test writes it down.
struct Node {
    style: Style,
    children: Vec<Node>,
}

/// The layout of a node and of its children, in layout units.
struct Laid {
    size: Size<f32>,
    location: Point<f32>,
    children: Vec<Laid>,
}

fn s(v: f32) -> Scalar {
    Scalar::from_raw((v as f64 * 1_000_000.0).round() as i64)
}

fn units(v: Scalar) -> f32 {
    (v.raw as f64 / 1_000_000.0) as f32
}

fn points(v: f32) -> Dimension {
    Dimension::Points(s(v))
}

fn percent(v: f32) -> Dimension {
    Dimension::Percent(s(v))
}

fn build(forest: &mut Forest<FixedMeasure>, node: &Node) -> NodeId {
    let children: Vec<NodeId> = node.children.iter().map(|c| build(forest, c)).collect();
    forest.new_node(node.style, children).unwrap()
}

fn collect(forest: &Forest<FixedMeasure>, id: NodeId) -> Laid {
    let layout = forest.layout(id).unwrap();
    let children = forest.children(id).unwrap().iter().map(|c| collect(forest, *c)).collect();
    Laid {
        size: Size { width: units(layout.size.width), height: units(layout.size.height) },
        location: Point { x: units(layout.location.x), y: units(layout.location.y) },
        children,
    }
}

fn compute(root: &Node, size: Size<Number>) -> Result<Laid, stretch::forest::Error> {
    let mut forest: Forest<FixedMeasure> = Forest::new();
    let id = build(&mut forest, root);
    forest.compute_layout(id, size)?;
    Ok(collect(&forest, id))
}

#[test]
fn display_none_with_position() {
    let layout = compute(
        &Node {
            style: Style {
                size: Size { width: points(100.0000), height: points(100.0000) },
                ..Default::default()
            },
            children: vec![
                Node { style: Style { flex_grow: s(1.0000), ..Default::default() }, children: vec![] },
                Node {
                    style: Style {
                        display: Display::Hidden,
                        flex_grow: s(1.0000),
                        position: Rect { top: points(10.0000), ..Default::default() },
                        ..Default::default()
                    },
                    children: vec![],
                },
            ],
        },
        Size::undefined(),
    )
    .unwrap();

    assert_eq!(layout.size.width, 100.0000);
    assert_eq!(layout.size.height, 100.0000);
    assert_eq!(layout.location.x, 0.0000);
    assert_eq!(layout.location.y, 0.0000);

    assert_eq!(layout.children[0].size.width, 100.0000);
    assert_eq!(layout.children[0].size.height, 100.0000);
    assert_eq!(layout.children[0].location.x, 0.0000);
    assert_eq!(layout.children[0].location.y, 0.0000);

    assert_eq!(layout.children[1].size.width, 0.0000);
    assert_eq!(layout.children[1].size.height, 0.0000);
    assert_eq!(layout.children[1].location.x, 0.0000);
    assert_eq!(layout.children[1].location.y, 0.0000);
}

#[test]
fn flex_direction_row_no_width() {
    let mut stretch: Forest<FixedMeasure> = Forest::new();
    let node0 = stretch
        .new_node(
            Style { size: Size { width: points(10f32), ..Default::default() }, ..Default::default() },
            vec![],
        )
        .unwrap();
    let node1 = stretch
        .new_node(
            Style { size: Size { width: points(10f32), ..Default::default() }, ..Default::default() },
            vec![],
        )
        .unwrap();
    let node2 = stretch
        .new_node(
            Style { size: Size { width: points(10f32), ..Default::default() }, ..Default::default() },
            vec![],
        )
        .unwrap();
    let node = stretch
        .new_node(
            Style { size: Size { height: points(100f32), ..Default::default() }, ..Default::default() },
            vec![node0, node1, node2],
        )
        .unwrap();
    stretch.compute_layout(node, Size::undefined()).unwrap();
    assert_eq!(units(stretch.layout(node).unwrap().size.width), 30f32);
    assert_eq!(units(stretch.layout(node).unwrap().size.height), 100f32);
    assert_eq!(units(stretch.layout(node).unwrap().location.x), 0f32);
    assert_eq!(units(stretch.layout(node).unwrap().location.y), 0f32);
    assert_eq!(units(stretch.layout(node0).unwrap().size.width), 10f32);
    assert_eq!(units(stretch.layout(node0).unwrap().size.height), 100f32);
    assert_eq!(units(stretch.layout(node0).unwrap().location.x), 0f32);
    assert_eq!(units(stretch.layout(node0).unwrap().location.y), 0f32);
    assert_eq!(units(stretch.layout(node1).unwrap().size.width), 10f32);
    assert_eq!(units(stretch.layout(node1).unwrap().size.height), 100f32);
    assert_eq!(units(stretch.layout(node1).unwrap().location.x), 10f32);
    assert_eq!(units(stretch.layout(node1).unwrap().location.y), 0f32);
    assert_eq!(units(stretch.layout(node2).unwrap().size.width), 10f32);
    assert_eq!(units(stretch.layout(node2).unwrap().size.height), 100f32);
    assert_eq!(units(stretch.layout(node2).unwrap().location.x), 20f32);
    assert_eq!(units(stretch.layout(node2).unwrap().location.y), 0f32);
}

#[test]
fn justify_content_min_max() {
    let layout = compute(
        &Node {
            style: Style {
                flex_direction: FlexDirection::Column,
                justify_content: JustifyContent::Center,
                size: Size { width: points(100.0000), ..Default::default() },
                min_size: Size { height: points(100.0000), ..Default::default() },
                max_size: Size { height: points(200.0000), ..Default::default() },
                ..Default::default()
            },
            children: vec![Node {
                style: Style {
                    size: Size { width: points(60.0000), height: points(60.0000) },
                    ..Default::default()
                },
                children: vec![],
            }],
        },
        Size::undefined(),
    )
    .unwrap();

    assert_eq!(layout.size.width, 100.0000);
    assert_eq!(layout.size.height, 100.0000);
    assert_eq!(layout.location.x, 0.0000);
    assert_eq!(layout.location.y, 0.0000);

    assert_eq!(layout.children[0].size.width, 60.0000);
    assert_eq!(layout.children[0].size.height, 60.0000);
    assert_eq!(layout.children[0].location.x, 0.0000);
    assert_eq!(layout.children[0].location.y, 20.0000);
}

#[test]
fn margin_bottom() {
    let mut stretch: Forest<FixedMeasure> = Forest::new();
    let node0 = stretch
        .new_node(
            Style {
                size: Size { height: points(10f32), ..Default::default() },
                margin: Rect { bottom: points(10f32), ..Default::default() },
                ..Default::default()
            },
            vec![],
        )
        .unwrap();
    let node = stretch
        .new_node(
            Style {
                flex_direction: FlexDirection::Column,
                justify_content: JustifyContent::FlexEnd,
                size: Size { width: points(100f32), height: points(100f32) },
                ..Default::default()
            },
            vec![node0],
        )
        .unwrap();
    stretch.compute_layout(node, Size::undefined()).unwrap();
    assert_eq!(units(stretch.layout(node).unwrap().size.width), 100f32);
    assert_eq!(units(stretch.layout(node).unwrap().size.height), 100f32);
    assert_eq!(units(stretch.layout(node).unwrap().location.x), 0f32);
    assert_eq!(units(stretch.layout(node).unwrap().location.y), 0f32);
    assert_eq!(units(stretch.layout(node0).unwrap().size.width), 100f32);
    assert_eq!(units(stretch.layout(node0).unwrap().size.height), 10f32);
    assert_eq!(units(stretch.layout(node0).unwrap().location.x), 0f32);
    assert_eq!(units(stretch.layout(node0).unwrap().location.y), 80f32);
}

#[test]
fn margin_should_not_be_part_of_max_height() {
    let layout = compute(
        &Node {
            style: Style {
                size: Size { width: points(250.0000), height: points(250.0000) },
                ..Default::default()
            },
            children: vec![Node {
                style: Style {
                    size: Size { width: points(100.0000), height: points(100.0000) },
                    max_size: Size { height: points(100.0000), ..Default::default() },
                    margin: Rect { top: points(20.0000), ..Default::default() },
                    ..Default::default()
                },
                children: vec![],
            }],
        },
        Size::undefined(),
    )
    .unwrap();

    assert_eq!(layout.size.width, 250.0000);
    assert_eq!(layout.size.height, 250.0000);
    assert_eq!(layout.location.x, 0.0000);
    assert_eq!(layout.location.y, 0.0000);

    assert_eq!(layout.children[0].size.width, 100.0000);
    assert_eq!(layout.children[0].size.height, 100.0000);
    assert_eq!(layout.children[0].location.x, 0.0000);
    assert_eq!(layout.children[0].location.y, 20.0000);
}

#[test]
fn padding_align_end_child() {
    let layout = compute(
        &Node {
            style: Style {
                align_items: AlignItems::FlexEnd,
                justify_content: JustifyContent::FlexEnd,
                size: Size { width: points(200.0000), height: points(200.0000) },
                ..Default::default()
            },
            children: vec![Node {
                style: Style {
                    size: Size { width: points(100.0000), height: points(100.0000) },
                    padding: Rect {
                        start: points(20.0000),
                        end: points(20.0000),
                        top: points(20.0000),
                        bottom: points(20.0000),
                    },
                    ..Default::default()
                },
                children: vec![],
            }],
        },
        Size::undefined(),
    )
    .unwrap();

    assert_eq!(layout.size.width, 200.0000);
    assert_eq!(layout.size.height, 200.0000);
    assert_eq!(layout.location.x, 0.0000);
    assert_eq!(layout.location.y, 0.0000);

    assert_eq!(layout.children[0].size.width, 100.0000);
    assert_eq!(layout.children[0].size.height, 100.0000);
    assert_eq!(layout.children[0].location.x, 100.0000);
    assert_eq!(layout.children[0].location.y, 100.0000);
}

#[test]
fn percentage_flex_basis_cross_min_height() {
    let layout = compute(
        &Node {
            style: Style {
                flex_direction: FlexDirection::Column,
                size: Size { width: points(200.0000), height: points(400.0000) },
                ..Default::default()
            },
            children: vec![
                Node {
                    style: Style {
                        flex_grow: s(1.0000),
                        min_size: Size { height: percent(0.6000), ..Default::default() },
                        ..Default::default()
                    },
                    children: vec![],
                },
                Node {
                    style: Style {
                        flex_grow: s(2.0000),
                        min_size: Size { height: percent(0.1000), ..Default::default() },
                        ..Default::default()
                    },
                    children: vec![],
                },
            ],
        },
        Size::undefined(),
    )
    .unwrap();

    assert_eq!(layout.size.width, 200.0000);
    assert_eq!(layout.size.height, 400.0000);
    assert_eq!(layout.location.x, 0.0000);
    assert_eq!(layout.location.y, 0.0000);

    assert_eq!(layout.children[0].size.width, 200.0000);
    assert_eq!(layout.children[0].size.height, 280.0000);
    assert_eq!(layout.children[0].location.x, 0.0000);
    assert_eq!(layout.children[0].location.y, 0.0000);

    assert_eq!(layout.children[1].size.width, 200.0000);
    assert_eq!(layout.children[1].size.height, 120.0000);
    assert_eq!(layout.children[1].location.x, 0.0000);
    assert_eq!(layout.children[1].location.y, 280.0000);
}

#[test]
fn percentage_flex_basis_main_min_width() {
    let layout = compute(
        &Node {
            style: Style {
                size: Size { width: points(200.0000), height: points(400.0000) },
                ..Default::default()
            },
            children: vec![
                Node {
                    style: Style {
                        flex_grow: s(1.0000),
                        flex_basis: percent(0.1500),
                        min_size: Size { width: percent(0.6000), ..Default::default() },
                        ..Default::default()
                    },
                    children: vec![],
                },
                Node {
                    style: Style {
                        flex_grow: s(4.0000),
                        flex_basis: percent(0.1000),
                        min_size: Size { width: percent(0.2000), ..Default::default() },
                        ..Default::default()
                    },
                    children: vec![],
                },
            ],
        },
        Size::undefined(),
    )
    .unwrap();

    assert_eq!(layout.size.width, 200.0000);
    assert_eq!(layout.size.height, 400.0000);
    assert_eq!(layout.location.x, 0.0000);
    assert_eq!(layout.location.y, 0.0000);

    assert_eq!(layout.children[0].size.width, 120.0000);
    assert_eq!(layout.children[0].size.height, 400.0000);
    assert_eq!(layout.children[0].location.x, 0.0000);
    assert_eq!(layout.children[0].location.y, 0.0000);

    assert_eq!(layout.children[1].size.width, 80.0000);
    assert_eq!(layout.children[1].size.height, 400.0000);
    assert_eq!(layout.children[1].location.x, 120.0000);
    assert_eq!(layout.children[1].location.y, 0.0000);
}

#[test]
fn percentage_size_of_flex_basis() {
    let layout = compute(
        &Node {
            style: Style { size: Size { width: points(100.0000), ..Default::default() }, ..Default::default() },
            children: vec![Node {
                style: Style { flex_basis: points(50.0000), ..Default::default() },
                children: vec![Node {
                    style: Style {
                        size: Size { width: percent(1.0000), height: points(100.0000) },
                        ..Default::default()
                    },
                    children: vec![],
                }],
            }],
        },
        Size::undefined(),
    )
    .unwrap();

    assert_eq!(layout.size.width, 100.0000);
    assert_eq!(layout.size.height, 100.0000);
    assert_eq!(layout.location.x, 0.0000);
    assert_eq!(layout.location.y, 0.0000);

    assert_eq!(layout.children[0].size.width, 50.0000);
    assert_eq!(layout.children[0].size.height, 100.0000);
    assert_eq!(layout.children[0].location.x, 0.0000);
    assert_eq!(layout.children[0].location.y, 0.0000);

    assert_eq!(layout.children[0].children[0].size.width, 50.0000);
    assert_eq!(layout.children[0].children[0].size.height, 100.0000);
    assert_eq!(layout.children[0].children[0].location.x, 0.0000);
    assert_eq!(layout.children[0].children[0].location.y, 0.0000);
}
