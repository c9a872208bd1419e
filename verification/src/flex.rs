//! Flex items, lines and the formulas of the flexible box algorithm.
//!
//! Everything here is a function of plain values. The passes over the forest
//! that call these functions are in [`crate::algo`].

use crate::forest::NodeId;
use crate::geometry::{Point, Rect, Size};
use crate::number::{MinMax, Number, OrElse};
use crate::result::{Cache, Layout};
use crate::scalar::Scalar;
use crate::style::{
    AlignContent, AlignSelf, Display, FlexDirection, FlexWrap, JustifyContent, PositionType, Style,
};
use vstd::prelude::*;

verus! {

/// A child of a container while the container is laid out.
#[derive(Clone, Copy, Debug, PartialEq, Eq, Structural)]
pub struct FlexItem {
    pub node: NodeId,
    /// Position of the node among the container's children.
    pub order: u32,
    pub size: Size<Number>,
    pub min_size: Size<Number>,
    pub max_size: Size<Number>,
    pub position: Rect<Number>,
    pub margin: Rect<Scalar>,
    pub padding: Rect<Scalar>,
    pub border: Rect<Scalar>,
    pub flex_basis: Scalar,
    pub inner_flex_basis: Scalar,
    pub violation: Scalar,
    pub frozen: bool,
    pub hypothetical_inner_size: Size<Scalar>,
    pub hypothetical_outer_size: Size<Scalar>,
    pub target_size: Size<Scalar>,
    pub outer_target_size: Size<Scalar>,
    pub baseline: Scalar,
    /// Space before the item on the main axis, from justification.
    pub offset_main: Scalar,
    /// Offset of the item on the cross axis of its line, from alignment.
    pub offset_cross: Scalar,
}

/// A run of consecutive flex items, from `start` up to `end`.
#[derive(Clone, Copy, Debug, PartialEq, Eq, Structural)]
pub struct FlexLine {
    pub start: usize,
    pub end: usize,
    pub cross_size: Scalar,
    pub offset_cross: Scalar,
}

/// What is fixed while one container is laid out.
#[derive(Clone, Copy, Debug, PartialEq, Eq, Structural)]
pub struct Container {
    pub node: NodeId,
    pub style: Style,
    pub dir: FlexDirection,
    pub node_size: Size<Number>,
    pub parent_size: Size<Number>,
    pub margin: Rect<Scalar>,
    pub padding: Rect<Scalar>,
    pub border: Rect<Scalar>,
    pub padding_border: Rect<Scalar>,
    pub node_inner_size: Size<Number>,
    pub available_space: Size<Number>,
    pub container_size: Size<Scalar>,
    pub inner_container_size: Size<Scalar>,
}

/// What a pass reads of a child besides its flex item.
#[derive(Clone, Copy, Debug, PartialEq, Eq, Structural)]
pub struct ChildInfo {
    pub style: Style,
    pub has_measure: bool,
}

/// A request to size or lay out a child.
#[derive(Clone, Copy, Debug, PartialEq, Eq, Structural)]
pub struct ChildCall {
    pub size: Size<Number>,
    pub parent: Size<Number>,
    pub perform_layout: bool,
}

/// What one round of flexing distributes over the unfrozen items of a line.
#[derive(Clone, Copy, Debug, PartialEq, Eq, Structural)]
pub struct Shares {
    pub growing: bool,
    pub free_space: Scalar,
    pub sum_grow: Scalar,
    pub sum_shrink: Scalar,
    pub sum_scaled: Scalar,
}

/// A pass over the items of a line.
#[derive(Clone, Copy, Debug, PartialEq, Eq, Structural)]
pub enum Pass {
    FlexBasis,
    HypotheticalMain,
    InitialTarget { growing: bool },
    Distribute { share: Shares },
    Clamp,
    Freeze { total_violation: Scalar },
    HypotheticalCross,
    Baseline,
    CrossTarget { line_cross: Scalar },
    AutoMargins { value: Scalar },
    Justify { free_space: Scalar, line: FlexLine },
    AlignCross { line_cross: Scalar, max_baseline: Scalar },
}

/// A sum or maximum over the items of a line.
#[derive(Clone, Copy, Debug, PartialEq, Eq, Structural)]
pub enum Gather {
    HypotheticalOuterMain,
    UsedSpace,
    FrozenSpace,
    UnfrozenSpace,
    FlexGrow,
    FlexShrink,
    ScaledShrink,
    Violation,
    OuterTargetMain,
    MaxBaseline,
    CrossExtent { max_baseline: Scalar },
    AutoMargins,
}

#[verifier::opaque]
pub open spec fn spec_cache_hit(
    cache: Cache,
    node_size: Size<Number>,
    parent_size: Size<Number>,
    perform_layout: bool,
) -> bool {
    if cache.perform_layout || !perform_layout {
        let width_compatible = match node_size.width {
            Number::Defined(width) => width.sub(cache.result.size.width).abs().lt(Scalar::epsilon()),
            Number::Undefined => cache.node_size.width.is_undefined(),
        };
        let height_compatible = match node_size.height {
            Number::Defined(height) => height.sub(cache.result.size.height).abs().lt(Scalar::epsilon()),
            Number::Undefined => cache.node_size.height.is_undefined(),
        };
        (width_compatible && height_compatible) || (cache.node_size == node_size && cache.parent_size
            == parent_size)
    } else {
        false
    }
}

/// Whether a remembered result answers a request for the given sizes.
#[verifier::when_used_as_spec(spec_cache_hit)]
pub fn cache_hit(
    cache: Cache,
    node_size: Size<Number>,
    parent_size: Size<Number>,
    perform_layout: bool,
) -> (r: bool)
    ensures
        r == spec_cache_hit(cache, node_size, parent_size, perform_layout),
{
    proof {
        reveal(spec_cache_hit);
    }
    if cache.perform_layout || !perform_layout {
        let width_compatible = match node_size.width {
            Number::Defined(width) => width.sub(cache.result.size.width).abs().lt(Scalar::epsilon()),
            Number::Undefined => cache.node_size.width.is_undefined(),
        };
        let height_compatible = match node_size.height {
            Number::Defined(height) => height.sub(cache.result.size.height).abs().lt(Scalar::epsilon()),
            Number::Undefined => cache.node_size.height.is_undefined(),
        };
        (width_compatible && height_compatible) || (cache.node_size == node_size && cache.parent_size
            == parent_size)
    } else {
        false
    }
}

#[verifier::opaque]
pub open spec fn spec_container(
    node: NodeId,
    style: Style,
    node_size: Size<Number>,
    parent_size: Size<Number>,
) -> Container {
    let margin = style.margin.resolve_or_zero(parent_size.width);
    let padding = style.padding.resolve_or_zero(parent_size.width);
    let border = style.border.resolve_or_zero(parent_size.width);
    let padding_border = Rect {
        start: padding.start.add(border.start),
        end: padding.end.add(border.end),
        top: padding.top.add(border.top),
        bottom: padding.bottom.add(border.bottom),
    };
    let node_inner_size = Size {
        width: node_size.width.sub_scalar(padding_border.horizontal()),
        height: node_size.height.sub_scalar(padding_border.vertical()),
    };
    let available_space = Size {
        width: node_size.width.or_else_spec(parent_size.width.sub_scalar(margin.horizontal())).sub_scalar(
            padding_border.horizontal(),
        ),
        height: node_size.height.or_else_spec(parent_size.height.sub_scalar(margin.vertical())).sub_scalar(
            padding_border.vertical(),
        ),
    };
    Container {
        node,
        style,
        dir: style.flex_direction,
        node_size,
        parent_size,
        margin,
        padding,
        border,
        padding_border,
        node_inner_size,
        available_space,
        container_size: Size::<Scalar>::zero(),
        inner_container_size: Size::<Scalar>::zero(),
    }
}

/// The constants of a container: its resolved edges and the space it offers.
#[verifier::when_used_as_spec(spec_container)]
pub fn container(
    node: NodeId,
    style: Style,
    node_size: Size<Number>,
    parent_size: Size<Number>,
) -> (r: Container)
    ensures
        r == spec_container(node, style, node_size, parent_size),
        r.node == node,
        r.style == style,
        r.dir == style.flex_direction,
        r.node_size == node_size,
{
    proof {
        reveal(spec_container);
    }
    let margin = style.margin.resolve_or_zero(parent_size.width);
    let padding = style.padding.resolve_or_zero(parent_size.width);
    let border = style.border.resolve_or_zero(parent_size.width);
    let padding_border = Rect {
        start: padding.start.add(border.start),
        end: padding.end.add(border.end),
        top: padding.top.add(border.top),
        bottom: padding.bottom.add(border.bottom),
    };
    let node_inner_size = Size {
        width: node_size.width.sub_scalar(padding_border.horizontal()),
        height: node_size.height.sub_scalar(padding_border.vertical()),
    };
    let available_space = Size {
        width: node_size.width.or_else(parent_size.width.sub_scalar(margin.horizontal())).sub_scalar(
            padding_border.horizontal(),
        ),
        height: node_size.height.or_else(parent_size.height.sub_scalar(margin.vertical())).sub_scalar(
            padding_border.vertical(),
        ),
    };
    Container {
        node,
        style,
        dir: style.flex_direction,
        node_size,
        parent_size,
        margin,
        padding,
        border,
        padding_border,
        node_inner_size,
        available_space,
        container_size: Size::<Scalar>::zero(),
        inner_container_size: Size::<Scalar>::zero(),
    }
}

#[verifier::opaque]
pub open spec fn spec_leaf_size(cx: Container) -> Size<Scalar> {
    Size {
        width: cx.node_size.width.or_else_spec(Scalar::zero()).add(cx.padding_border.horizontal()),
        height: cx.node_size.height.or_else_spec(Scalar::zero()).add(cx.padding_border.vertical()),
    }
}

/// Size of a childless node without measurer: what was asked for, or its
/// padding and border.
#[verifier::when_used_as_spec(spec_leaf_size)]
pub fn leaf_size(cx: Container) -> (r: Size<Scalar>)
    ensures
        r == spec_leaf_size(cx),
{
    proof {
        reveal(spec_leaf_size);
    }
    Size {
        width: cx.node_size.width.or_else(Scalar::zero()).add(cx.padding_border.horizontal()),
        height: cx.node_size.height.or_else(Scalar::zero()).add(cx.padding_border.vertical()),
    }
}

#[verifier::opaque]
pub open spec fn spec_new_item(node: NodeId, order: u32, style: Style, cx: Container) -> FlexItem {
    let inner = cx.node_inner_size;
    FlexItem {
        node,
        order,
        size: style.size.resolve(inner),
        min_size: style.min_size.resolve(inner),
        max_size: style.max_size.resolve(inner),
        position: style.position.resolve(inner.width),
        margin: style.margin.resolve_or_zero(inner.width),
        padding: style.padding.resolve_or_zero(inner.width),
        border: style.border.resolve_or_zero(inner.width),
        flex_basis: Scalar::zero(),
        inner_flex_basis: Scalar::zero(),
        violation: Scalar::zero(),
        frozen: false,
        hypothetical_inner_size: Size::<Scalar>::zero(),
        hypothetical_outer_size: Size::<Scalar>::zero(),
        target_size: Size::<Scalar>::zero(),
        outer_target_size: Size::<Scalar>::zero(),
        baseline: Scalar::zero(),
        offset_main: Scalar::zero(),
        offset_cross: Scalar::zero(),
    }
}

/// The flex item for a child, with its dimensions resolved against the
/// container's inner size.
#[verifier::when_used_as_spec(spec_new_item)]
pub fn new_item(node: NodeId, order: u32, style: Style, cx: Container) -> (r: FlexItem)
    ensures
        r == spec_new_item(node, order, style, cx),
        r.node == node,
        r.order == order,
{
    proof {
        reveal(spec_new_item);
    }
    let inner = cx.node_inner_size;
    FlexItem {
        node,
        order,
        size: style.size.resolve(inner),
        min_size: style.min_size.resolve(inner),
        max_size: style.max_size.resolve(inner),
        position: style.position.resolve(inner.width),
        margin: style.margin.resolve_or_zero(inner.width),
        padding: style.padding.resolve_or_zero(inner.width),
        border: style.border.resolve_or_zero(inner.width),
        flex_basis: Scalar::zero(),
        inner_flex_basis: Scalar::zero(),
        violation: Scalar::zero(),
        frozen: false,
        hypothetical_inner_size: Size::<Scalar>::zero(),
        hypothetical_outer_size: Size::<Scalar>::zero(),
        target_size: Size::<Scalar>::zero(),
        outer_target_size: Size::<Scalar>::zero(),
        baseline: Scalar::zero(),
        offset_main: Scalar::zero(),
        offset_cross: Scalar::zero(),
    }
}

#[verifier::opaque]
pub open spec fn spec_in_flow(style: Style) -> bool {
    style.position_type != PositionType::Absolute && style.display != Display::Hidden
}

/// Whether a child becomes a flex item: it is in flow and displayed.
#[verifier::when_used_as_spec(spec_in_flow)]
pub fn in_flow(style: Style) -> (r: bool)
    ensures
        r == spec_in_flow(style),
{
    proof {
        reveal(spec_in_flow);
    }
    style.position_type != PositionType::Absolute && style.display != Display::Hidden
}

#[verifier::opaque]
pub open spec fn spec_clamped_size(item: FlexItem) -> Size<Number> {
    Size {
        width: item.size.width.maybe_max_spec(item.min_size.width).maybe_min_spec(item.max_size.width),
        height: item.size.height.maybe_max_spec(item.min_size.height).maybe_min_spec(item.max_size.height),
    }
}

/// The item's size clamped by its least and greatest size, where each is
/// defined.
#[verifier::when_used_as_spec(spec_clamped_size)]
pub fn clamped_size(item: FlexItem) -> (r: Size<Number>)
    ensures
        r == spec_clamped_size(item),
{
    proof {
        reveal(spec_clamped_size);
    }
    Size {
        width: item.size.width.maybe_max(item.min_size.width).maybe_min(item.max_size.width),
        height: item.size.height.maybe_max(item.min_size.height).maybe_min(item.max_size.height),
    }
}

#[verifier::opaque]
pub open spec fn spec_basis_from_ratio(info: ChildInfo, cx: Container) -> bool {
    info.style.aspect_ratio.is_defined() && cx.node_size.cross(cx.dir).is_defined()
        && info.style.flex_basis.is_auto()
}

/// Whether the flex basis of an item comes from its aspect ratio and the
/// container's cross size.
#[verifier::when_used_as_spec(spec_basis_from_ratio)]
pub fn basis_from_ratio(info: ChildInfo, cx: Container) -> (r: bool)
    ensures
        r == spec_basis_from_ratio(info, cx),
{
    proof {
        reveal(spec_basis_from_ratio);
    }
    info.style.aspect_ratio.is_defined() && cx.node_size.cross(cx.dir).is_defined()
        && info.style.flex_basis.is_auto()
}

#[verifier::opaque]
pub open spec fn spec_flex_basis_request(
    item: FlexItem,
    info: ChildInfo,
    cx: Container,
) -> Option<ChildCall> {
    let stated = info.style.flex_basis.resolve(cx.node_inner_size.main(cx.dir));
    if stated.is_defined() || basis_from_ratio(info, cx) {
        None
    } else {
        let stretch = info.style.align_self(&cx.style) == AlignSelf::Stretch;
        let width = if !item.size.width.is_defined() && stretch && cx.dir.is_column() {
            cx.available_space.width
        } else {
            item.size.width
        };
        let height = if !item.size.height.is_defined() && stretch && cx.dir.is_row() {
            cx.available_space.height
        } else {
            item.size.height
        };
        Some(
            ChildCall {
                size: Size {
                    width: width.maybe_max_spec(item.min_size.width).maybe_min_spec(item.max_size.width),
                    height: height.maybe_max_spec(item.min_size.height).maybe_min_spec(item.max_size.height),
                },
                parent: cx.available_space,
                perform_layout: false,
            },
        )
    }
}

/// The measurement that the flex basis of an item needs, if it is not stated.
#[verifier::when_used_as_spec(spec_flex_basis_request)]
pub fn flex_basis_request(item: FlexItem, info: ChildInfo, cx: Container) -> (r: Option<ChildCall>)
    ensures
        r == spec_flex_basis_request(item, info, cx),
{
    proof {
        reveal(spec_flex_basis_request);
    }
    let stated = info.style.flex_basis.resolve(cx.node_inner_size.main(cx.dir));
    if stated.is_defined() || basis_from_ratio(info, cx) {
        None
    } else {
        let stretch = info.style.align_self(&cx.style) == AlignSelf::Stretch;
        let width = if !item.size.width.is_defined() && stretch && cx.dir.is_column() {
            cx.available_space.width
        } else {
            item.size.width
        };
        let height = if !item.size.height.is_defined() && stretch && cx.dir.is_row() {
            cx.available_space.height
        } else {
            item.size.height
        };
        Some(
            ChildCall {
                size: Size {
                    width: width.maybe_max(item.min_size.width).maybe_min(item.max_size.width),
                    height: height.maybe_max(item.min_size.height).maybe_min(item.max_size.height),
                },
                parent: cx.available_space,
                perform_layout: false,
            },
        )
    }
}

#[verifier::opaque]
pub open spec fn spec_flex_basis_apply(
    item: FlexItem,
    info: ChildInfo,
    cx: Container,
    result: Option<Size<Scalar>>,
) -> FlexItem {
    let stated = info.style.flex_basis.resolve(cx.node_inner_size.main(cx.dir));
    let basis = if stated.is_defined() {
        stated.or_else_spec(Scalar::zero())
    } else if basis_from_ratio(info, cx) {
        cx.node_size.cross(cx.dir).or_else_spec(Scalar::zero()).mul(
            info.style.aspect_ratio.or_else_spec(Scalar::zero()),
        )
    } else {
        match result {
            Some(size) => size.main(cx.dir).maybe_max_spec(item.min_size.main(cx.dir)).maybe_min_spec(
                item.max_size.main(cx.dir),
            ),
            None => item.flex_basis,
        }
    };
    FlexItem { flex_basis: basis, ..item }
}

/// The item with its flex basis: the stated one, the one from the aspect ratio,
/// or the measured main size within the item's bounds.
#[verifier::when_used_as_spec(spec_flex_basis_apply)]
pub fn flex_basis_apply(
    item: FlexItem,
    info: ChildInfo,
    cx: Container,
    result: Option<Size<Scalar>>,
) -> (r: FlexItem)
    ensures
        r == spec_flex_basis_apply(item, info, cx, result),
        r.node == item.node,
        r.order == item.order,
{
    proof {
        reveal(spec_flex_basis_apply);
    }
    let stated = info.style.flex_basis.resolve(cx.node_inner_size.main(cx.dir));
    let basis = if stated.is_defined() {
        stated.or_else(Scalar::zero())
    } else if basis_from_ratio(info, cx) {
        cx.node_size.cross(cx.dir).or_else(Scalar::zero()).mul(
            info.style.aspect_ratio.or_else(Scalar::zero()),
        )
    } else {
        match result {
            Some(size) => size.main(cx.dir).maybe_max(item.min_size.main(cx.dir)).maybe_min(
                item.max_size.main(cx.dir),
            ),
            None => item.flex_basis,
        }
    };
    FlexItem { flex_basis: basis, ..item }
}

#[verifier::opaque]
pub open spec fn spec_unconstrained_request(cx: Container) -> ChildCall {
    ChildCall {
        size: Size { width: Number::Undefined, height: Number::Undefined },
        parent: cx.available_space,
        perform_layout: false,
    }
}

/// The measurement of an item under no constraint, in the space the container
/// offers.
#[verifier::when_used_as_spec(spec_unconstrained_request)]
pub fn unconstrained_request(cx: Container) -> (r: ChildCall)
    ensures
        r == spec_unconstrained_request(cx),
{
    proof {
        reveal(spec_unconstrained_request);
    }
    ChildCall {
        size: Size { width: Number::Undefined, height: Number::Undefined },
        parent: cx.available_space,
        perform_layout: false,
    }
}

#[verifier::opaque]
pub open spec fn spec_hypothetical_main_apply(
    item: FlexItem,
    cx: Container,
    result: Option<Size<Scalar>>,
) -> FlexItem {
    match result {
        Some(size) => {
            let inner_flex_basis = item.flex_basis.sub(item.padding.main(cx.dir)).sub(
                item.border.main(cx.dir),
            );
            let min_main = Number::Defined(
                size.main(cx.dir).maybe_max_spec(item.min_size.main(cx.dir)).maybe_min_spec(
                    item.size.main(cx.dir),
                ),
            );
            let inner = item.flex_basis.maybe_max_spec(min_main).maybe_min_spec(item.max_size.main(cx.dir));
            FlexItem {
                inner_flex_basis,
                hypothetical_inner_size: item.hypothetical_inner_size.with_main(cx.dir, inner),
                hypothetical_outer_size: item.hypothetical_outer_size.with_main(
                    cx.dir,
                    inner.add(item.margin.main(cx.dir)),
                ),
                ..item
            }
        },
        None => item,
    }
}

/// The item with its inner flex basis and its hypothetical main size: the flex
/// basis within the measured least size and the greatest size.
#[verifier::when_used_as_spec(spec_hypothetical_main_apply)]
pub fn hypothetical_main_apply(
    item: FlexItem,
    cx: Container,
    result: Option<Size<Scalar>>,
) -> (r: FlexItem)
    ensures
        r == spec_hypothetical_main_apply(item, cx, result),
        r.node == item.node,
        r.order == item.order,
{
    proof {
        reveal(spec_hypothetical_main_apply);
    }
    match result {
        Some(size) => {
            let inner_flex_basis = item.flex_basis.sub(item.padding.main(cx.dir)).sub(
                item.border.main(cx.dir),
            );
            let min_main = Number::Defined(
                size.main(cx.dir).maybe_max(item.min_size.main(cx.dir)).maybe_min(
                    item.size.main(cx.dir),
                ),
            );
            let inner = item.flex_basis.maybe_max(min_main).maybe_min(item.max_size.main(cx.dir));
            FlexItem {
                inner_flex_basis,
                hypothetical_inner_size: item.hypothetical_inner_size.with_main(cx.dir, inner),
                hypothetical_outer_size: item.hypothetical_outer_size.with_main(
                    cx.dir,
                    inner.add(item.margin.main(cx.dir)),
                ),
                ..item
            }
        },
        None => item,
    }
}

#[verifier::opaque]
pub open spec fn spec_initial_target_request(item: FlexItem, cx: Container) -> Option<ChildCall> {
    if cx.node_inner_size.main(cx.dir).is_undefined() && cx.dir.is_row() {
        Some(ChildCall { size: clamped_size(item), parent: cx.available_space, perform_layout: false })
    } else {
        None
    }
}

/// The measurement that the first target size of an item needs: none unless the
/// container is a row of open main size.
#[verifier::when_used_as_spec(spec_initial_target_request)]
pub fn initial_target_request(item: FlexItem, cx: Container) -> (r: Option<ChildCall>)
    ensures
        r == spec_initial_target_request(item, cx),
{
    proof {
        reveal(spec_initial_target_request);
    }
    if cx.node_inner_size.main(cx.dir).is_undefined() && cx.dir.is_row() {
        Some(ChildCall { size: clamped_size(item), parent: cx.available_space, perform_layout: false })
    } else {
        None
    }
}

#[verifier::opaque]
pub open spec fn spec_initial_target_apply(
    item: FlexItem,
    info: ChildInfo,
    cx: Container,
    growing: bool,
    result: Option<Size<Scalar>>,
) -> FlexItem {
    let target = match result {
        Some(size) => size.main(cx.dir).maybe_max_spec(item.min_size.main(cx.dir)).maybe_min_spec(
            item.max_size.main(cx.dir),
        ),
        None => item.hypothetical_inner_size.main(cx.dir),
    };
    let hypothetical = item.hypothetical_inner_size.main(cx.dir);
    let inflexible = (info.style.flex_grow.raw == 0 && info.style.flex_shrink.raw == 0) || (growing
        && item.flex_basis.gt(hypothetical)) || (!growing && item.flex_basis.lt(hypothetical));
    FlexItem {
        target_size: item.target_size.with_main(cx.dir, target),
        outer_target_size: item.outer_target_size.with_main(
            cx.dir,
            target.add(item.margin.main(cx.dir)),
        ),
        frozen: item.frozen || inflexible,
        ..item
    }
}

/// The item with its first target main size, frozen if it cannot flex in the
/// line's direction.
#[verifier::when_used_as_spec(spec_initial_target_apply)]
pub fn initial_target_apply(
    item: FlexItem,
    info: ChildInfo,
    cx: Container,
    growing: bool,
    result: Option<Size<Scalar>>,
) -> (r: FlexItem)
    ensures
        r == spec_initial_target_apply(item, info, cx, growing, result),
        r.node == item.node,
        r.order == item.order,
{
    proof {
        reveal(spec_initial_target_apply);
    }
    let target = match result {
        Some(size) => size.main(cx.dir).maybe_max(item.min_size.main(cx.dir)).maybe_min(
            item.max_size.main(cx.dir),
        ),
        None => item.hypothetical_inner_size.main(cx.dir),
    };
    let hypothetical = item.hypothetical_inner_size.main(cx.dir);
    let inflexible = (info.style.flex_grow.raw == 0 && info.style.flex_shrink.raw == 0) || (growing
        && item.flex_basis.gt(hypothetical)) || (!growing && item.flex_basis.lt(hypothetical));
    FlexItem {
        target_size: item.target_size.with_main(cx.dir, target),
        outer_target_size: item.outer_target_size.with_main(
            cx.dir,
            target.add(item.margin.main(cx.dir)),
        ),
        frozen: item.frozen || inflexible,
        ..item
    }
}

#[verifier::opaque]
pub open spec fn spec_round_free_space(
    cx: Container,
    growing: bool,
    initial_free_space: Scalar,
    used_space: Scalar,
    sum_grow: Scalar,
    sum_shrink: Scalar,
) -> Scalar {
    let rest = cx.node_inner_size.main(cx.dir).sub_scalar(used_space);
    if growing && sum_grow.lt(Scalar::one()) {
        initial_free_space.mul(sum_grow).maybe_min_spec(rest)
    } else if !growing && sum_shrink.lt(Scalar::one()) {
        initial_free_space.mul(sum_shrink).maybe_max_spec(rest)
    } else {
        rest.or_else_spec(Scalar::zero())
    }
}

/// The free space of a line in one round of flexing.
#[verifier::when_used_as_spec(spec_round_free_space)]
pub fn round_free_space(
    cx: Container,
    growing: bool,
    initial_free_space: Scalar,
    used_space: Scalar,
    sum_grow: Scalar,
    sum_shrink: Scalar,
) -> (r: Scalar)
    ensures
        r == spec_round_free_space(cx, growing, initial_free_space, used_space, sum_grow, sum_shrink),
{
    proof {
        reveal(spec_round_free_space);
    }
    let rest = cx.node_inner_size.main(cx.dir).sub_scalar(used_space);
    if growing && sum_grow.lt(Scalar::one()) {
        initial_free_space.mul(sum_grow).maybe_min(rest)
    } else if !growing && sum_shrink.lt(Scalar::one()) {
        initial_free_space.mul(sum_shrink).maybe_max(rest)
    } else {
        rest.or_else(Scalar::zero())
    }
}

#[verifier::opaque]
pub open spec fn spec_distribute_apply(
    item: FlexItem,
    info: ChildInfo,
    cx: Container,
    share: Shares,
) -> FlexItem {
    if item.frozen || !share.free_space.is_normal() {
        item
    } else if share.growing && share.sum_grow.gt(Scalar::zero()) {
        let target = item.flex_basis.add(
            share.free_space.mul_div(info.style.flex_grow, share.sum_grow),
        );
        FlexItem { target_size: item.target_size.with_main(cx.dir, target), ..item }
    } else if !share.growing && share.sum_shrink.gt(Scalar::zero()) && share.sum_scaled.gt(
        Scalar::zero(),
    ) {
        let scaled = item.inner_flex_basis.mul(info.style.flex_shrink);
        let target = item.flex_basis.add(share.free_space.mul_div(scaled, share.sum_scaled));
        FlexItem { target_size: item.target_size.with_main(cx.dir, target), ..item }
    } else {
        item
    }
}

/// The unfrozen item with its share of the free space added to its flex basis:
/// the free space times the item's factor over the sum of the factors, cut
/// once.
#[verifier::when_used_as_spec(spec_distribute_apply)]
pub fn distribute_apply(
    item: FlexItem,
    info: ChildInfo,
    cx: Container,
    share: Shares,
) -> (r: FlexItem)
    ensures
        r == spec_distribute_apply(item, info, cx, share),
        r.node == item.node,
        r.order == item.order,
{
    proof {
        reveal(spec_distribute_apply);
    }
    if item.frozen || !share.free_space.is_normal() {
        item
    } else if share.growing && share.sum_grow.gt(Scalar::zero()) {
        let target = item.flex_basis.add(
            share.free_space.mul_div(info.style.flex_grow, share.sum_grow),
        );
        FlexItem { target_size: item.target_size.with_main(cx.dir, target), ..item }
    } else if !share.growing && share.sum_shrink.gt(Scalar::zero()) && share.sum_scaled.gt(
        Scalar::zero(),
    ) {
        let scaled = item.inner_flex_basis.mul(info.style.flex_shrink);
        let target = item.flex_basis.add(share.free_space.mul_div(scaled, share.sum_scaled));
        FlexItem { target_size: item.target_size.with_main(cx.dir, target), ..item }
    } else {
        item
    }
}

#[verifier::opaque]
pub open spec fn spec_clamp_request(
    item: FlexItem,
    info: ChildInfo,
    cx: Container,
) -> Option<ChildCall> {
    if !item.frozen && cx.dir.is_row() && !info.has_measure {
        Some(unconstrained_request(cx))
    } else {
        None
    }
}

/// The measurement that clamping an unfrozen item needs: its content size, in a
/// row and without measurer.
#[verifier::when_used_as_spec(spec_clamp_request)]
pub fn clamp_request(item: FlexItem, info: ChildInfo, cx: Container) -> (r: Option<ChildCall>)
    ensures
        r == spec_clamp_request(item, info, cx),
{
    proof {
        reveal(spec_clamp_request);
    }
    if !item.frozen && cx.dir.is_row() && !info.has_measure {
        Some(unconstrained_request(cx))
    } else {
        None
    }
}

#[verifier::opaque]
pub open spec fn spec_clamp_apply(
    item: FlexItem,
    cx: Container,
    result: Option<Size<Scalar>>,
) -> FlexItem {
    if item.frozen {
        item
    } else {
        let min_main = match result {
            Some(size) => Number::Defined(
                size.width.maybe_min_spec(item.size.width).maybe_max_spec(item.min_size.width),
            ),
            None => item.min_size.main(cx.dir),
        };
        let max_main = item.max_size.main(cx.dir);
        let target = item.target_size.main(cx.dir);
        let clamped = target.maybe_min_spec(max_main).maybe_max_spec(min_main).max(Scalar::zero());
        FlexItem {
            violation: clamped.sub(target),
            target_size: item.target_size.with_main(cx.dir, clamped),
            outer_target_size: item.outer_target_size.with_main(
                cx.dir,
                clamped.add(item.margin.main(cx.dir)),
            ),
            ..item
        }
    }
}

/// The unfrozen item with its target clamped to its least and greatest main
/// size and to zero, and the violation noted.
#[verifier::when_used_as_spec(spec_clamp_apply)]
pub fn clamp_apply(item: FlexItem, cx: Container, result: Option<Size<Scalar>>) -> (r: FlexItem)
    ensures
        r == spec_clamp_apply(item, cx, result),
        r.node == item.node,
        r.order == item.order,
{
    proof {
        reveal(spec_clamp_apply);
    }
    if item.frozen {
        item
    } else {
        let min_main = match result {
            Some(size) => Number::Defined(
                size.width.maybe_min(item.size.width).maybe_max(item.min_size.width),
            ),
            None => item.min_size.main(cx.dir),
        };
        let max_main = item.max_size.main(cx.dir);
        let target = item.target_size.main(cx.dir);
        let clamped = target.maybe_min(max_main).maybe_max(min_main).max(Scalar::zero());
        FlexItem {
            violation: clamped.sub(target),
            target_size: item.target_size.with_main(cx.dir, clamped),
            outer_target_size: item.outer_target_size.with_main(
                cx.dir,
                clamped.add(item.margin.main(cx.dir)),
            ),
            ..item
        }
    }
}

#[verifier::opaque]
pub open spec fn spec_freeze_apply(item: FlexItem, total_violation: Scalar) -> FlexItem {
    if item.frozen {
        item
    } else {
        let frozen = if total_violation.gt(Scalar::zero()) {
            item.violation.gt(Scalar::zero())
        } else if total_violation.lt(Scalar::zero()) {
            item.violation.lt(Scalar::zero())
        } else {
            true
        };
        FlexItem { frozen, ..item }
    }
}

/// The unfrozen item, frozen according to the sign of the total violation.
#[verifier::when_used_as_spec(spec_freeze_apply)]
pub fn freeze_apply(item: FlexItem, total_violation: Scalar) -> (r: FlexItem)
    ensures
        r == spec_freeze_apply(item, total_violation),
        r.node == item.node,
        r.order == item.order,
{
    proof {
        reveal(spec_freeze_apply);
    }
    if item.frozen {
        item
    } else {
        let frozen = if total_violation.gt(Scalar::zero()) {
            item.violation.gt(Scalar::zero())
        } else if total_violation.lt(Scalar::zero()) {
            item.violation.lt(Scalar::zero())
        } else {
            true
        };
        FlexItem { frozen, ..item }
    }
}

#[verifier::opaque]
pub open spec fn spec_hypothetical_cross_request(item: FlexItem, cx: Container) -> ChildCall {
    let child_cross = item.size.cross(cx.dir).maybe_max_spec(item.min_size.cross(cx.dir)).maybe_min_spec(
        item.max_size.cross(cx.dir),
    );
    let main = Number::Defined(cx.container_size.main(cx.dir));
    if cx.dir.is_row() {
        ChildCall {
            size: Size { width: Number::Defined(item.target_size.width), height: child_cross },
            parent: Size { width: main, height: cx.available_space.height },
            perform_layout: false,
        }
    } else {
        ChildCall {
            size: Size { width: child_cross, height: Number::Defined(item.target_size.height) },
            parent: Size { width: cx.available_space.width, height: main },
            perform_layout: false,
        }
    }
}

/// The measurement of an item at its target main size, for its cross size.
#[verifier::when_used_as_spec(spec_hypothetical_cross_request)]
pub fn hypothetical_cross_request(item: FlexItem, cx: Container) -> (r: ChildCall)
    ensures
        r == spec_hypothetical_cross_request(item, cx),
{
    proof {
        reveal(spec_hypothetical_cross_request);
    }
    let child_cross = item.size.cross(cx.dir).maybe_max(item.min_size.cross(cx.dir)).maybe_min(
        item.max_size.cross(cx.dir),
    );
    let main = Number::Defined(cx.container_size.main(cx.dir));
    if cx.dir.is_row() {
        ChildCall {
            size: Size { width: Number::Defined(item.target_size.width), height: child_cross },
            parent: Size { width: main, height: cx.available_space.height },
            perform_layout: false,
        }
    } else {
        ChildCall {
            size: Size { width: child_cross, height: Number::Defined(item.target_size.height) },
            parent: Size { width: cx.available_space.width, height: main },
            perform_layout: false,
        }
    }
}

#[verifier::opaque]
pub open spec fn spec_hypothetical_cross_apply(
    item: FlexItem,
    cx: Container,
    result: Option<Size<Scalar>>,
) -> FlexItem {
    match result {
        Some(size) => {
            let inner = size.cross(cx.dir).maybe_max_spec(item.min_size.cross(cx.dir)).maybe_min_spec(
                item.max_size.cross(cx.dir),
            );
            FlexItem {
                hypothetical_inner_size: item.hypothetical_inner_size.with_cross(cx.dir, inner),
                hypothetical_outer_size: item.hypothetical_outer_size.with_cross(
                    cx.dir,
                    inner.add(item.margin.cross(cx.dir)),
                ),
                ..item
            }
        },
        None => item,
    }
}

/// The item with its hypothetical cross size: the measured one within the
/// item's bounds.
#[verifier::when_used_as_spec(spec_hypothetical_cross_apply)]
pub fn hypothetical_cross_apply(
    item: FlexItem,
    cx: Container,
    result: Option<Size<Scalar>>,
) -> (r: FlexItem)
    ensures
        r == spec_hypothetical_cross_apply(item, cx, result),
        r.node == item.node,
        r.order == item.order,
{
    proof {
        reveal(spec_hypothetical_cross_apply);
    }
    match result {
        Some(size) => {
            let inner = size.cross(cx.dir).maybe_max(item.min_size.cross(cx.dir)).maybe_min(
                item.max_size.cross(cx.dir),
            );
            FlexItem {
                hypothetical_inner_size: item.hypothetical_inner_size.with_cross(cx.dir, inner),
                hypothetical_outer_size: item.hypothetical_outer_size.with_cross(
                    cx.dir,
                    inner.add(item.margin.cross(cx.dir)),
                ),
                ..item
            }
        },
        None => item,
    }
}

#[verifier::opaque]
pub open spec fn spec_baseline_request(item: FlexItem, cx: Container) -> ChildCall {
    if cx.dir.is_row() {
        ChildCall {
            size: Size {
                width: Number::Defined(item.target_size.width),
                height: Number::Defined(item.hypothetical_inner_size.height),
            },
            parent: Size {
                width: Number::Defined(cx.container_size.width),
                height: cx.node_size.height,
            },
            perform_layout: true,
        }
    } else {
        ChildCall {
            size: Size {
                width: Number::Defined(item.hypothetical_inner_size.width),
                height: Number::Defined(item.target_size.height),
            },
            parent: Size {
                width: cx.node_size.width,
                height: Number::Defined(cx.container_size.height),
            },
            perform_layout: true,
        }
    }
}

/// The layout of an item at its target main and hypothetical cross size, for
/// its baseline.
#[verifier::when_used_as_spec(spec_baseline_request)]
pub fn baseline_request(item: FlexItem, cx: Container) -> (r: ChildCall)
    ensures
        r == spec_baseline_request(item, cx),
{
    proof {
        reveal(spec_baseline_request);
    }
    if cx.dir.is_row() {
        ChildCall {
            size: Size {
                width: Number::Defined(item.target_size.width),
                height: Number::Defined(item.hypothetical_inner_size.height),
            },
            parent: Size {
                width: Number::Defined(cx.container_size.width),
                height: cx.node_size.height,
            },
            perform_layout: true,
        }
    } else {
        ChildCall {
            size: Size {
                width: Number::Defined(item.hypothetical_inner_size.width),
                height: Number::Defined(item.target_size.height),
            },
            parent: Size {
                width: cx.node_size.width,
                height: Number::Defined(cx.container_size.height),
            },
            perform_layout: true,
        }
    }
}

#[verifier::opaque]
pub open spec fn spec_stretches(info: ChildInfo, cx: Container) -> bool {
    info.style.align_self(&cx.style) == AlignSelf::Stretch && !info.style.cross_margin_start(
        cx.dir,
    ).is_auto() && !info.style.cross_margin_end(cx.dir).is_auto() && info.style.cross_size(
        cx.dir,
    ).is_auto()
}

/// Whether an item takes the cross size of its line: it stretches, its cross
/// size is `Auto` and no cross margin is.
#[verifier::when_used_as_spec(spec_stretches)]
pub fn stretches(info: ChildInfo, cx: Container) -> (r: bool)
    ensures
        r == spec_stretches(info, cx),
{
    proof {
        reveal(spec_stretches);
    }
    info.style.align_self(&cx.style) == AlignSelf::Stretch && !info.style.cross_margin_start(
        cx.dir,
    ).is_auto() && !info.style.cross_margin_end(cx.dir).is_auto() && info.style.cross_size(
        cx.dir,
    ).is_auto()
}

#[verifier::opaque]
pub open spec fn spec_baseline_aligned(info: ChildInfo, cx: Container) -> bool {
    info.style.align_self(&cx.style) == AlignSelf::Baseline && !info.style.cross_margin_start(
        cx.dir,
    ).is_auto() && !info.style.cross_margin_end(cx.dir).is_auto() && info.style.cross_size(
        cx.dir,
    ).is_auto()
}

/// Whether an item is aligned by its baseline in the cross size of its line.
#[verifier::when_used_as_spec(spec_baseline_aligned)]
pub fn baseline_aligned(info: ChildInfo, cx: Container) -> (r: bool)
    ensures
        r == spec_baseline_aligned(info, cx),
{
    proof {
        reveal(spec_baseline_aligned);
    }
    info.style.align_self(&cx.style) == AlignSelf::Baseline && !info.style.cross_margin_start(
        cx.dir,
    ).is_auto() && !info.style.cross_margin_end(cx.dir).is_auto() && info.style.cross_size(
        cx.dir,
    ).is_auto()
}

#[verifier::opaque]
pub open spec fn spec_cross_target_apply(
    item: FlexItem,
    info: ChildInfo,
    cx: Container,
    line_cross: Scalar,
) -> FlexItem {
    let target = if stretches(info, cx) {
        line_cross.sub(item.margin.cross(cx.dir)).maybe_max_spec(item.min_size.cross(cx.dir)).maybe_min_spec(
            item.max_size.cross(cx.dir),
        )
    } else {
        item.hypothetical_inner_size.cross(cx.dir)
    };
    FlexItem {
        target_size: item.target_size.with_cross(cx.dir, target),
        outer_target_size: item.outer_target_size.with_cross(
            cx.dir,
            target.add(item.margin.cross(cx.dir)),
        ),
        ..item
    }
}

/// The item with its target cross size: the line's cross size within the item's
/// bounds where it stretches, its hypothetical cross size otherwise.
#[verifier::when_used_as_spec(spec_cross_target_apply)]
pub fn cross_target_apply(
    item: FlexItem,
    info: ChildInfo,
    cx: Container,
    line_cross: Scalar,
) -> (r: FlexItem)
    ensures
        r == spec_cross_target_apply(item, info, cx, line_cross),
        r.node == item.node,
        r.order == item.order,
{
    proof {
        reveal(spec_cross_target_apply);
    }
    let target = if stretches(info, cx) {
        line_cross.sub(item.margin.cross(cx.dir)).maybe_max(item.min_size.cross(cx.dir)).maybe_min(
            item.max_size.cross(cx.dir),
        )
    } else {
        item.hypothetical_inner_size.cross(cx.dir)
    };
    FlexItem {
        target_size: item.target_size.with_cross(cx.dir, target),
        outer_target_size: item.outer_target_size.with_cross(
            cx.dir,
            target.add(item.margin.cross(cx.dir)),
        ),
        ..item
    }
}

#[verifier::opaque]
pub open spec fn spec_with_main_start(
    margin: Rect<Scalar>,
    dir: FlexDirection,
    value: Scalar,
) -> Rect<Scalar> {
    if dir.is_row() {
        Rect { start: value, ..margin }
    } else {
        Rect { top: value, ..margin }
    }
}

/// The margins with the one where the main axis begins set to `value`.
#[verifier::when_used_as_spec(spec_with_main_start)]
pub fn with_main_start(margin: Rect<Scalar>, dir: FlexDirection, value: Scalar) -> (r: Rect<Scalar>)
    ensures
        r == spec_with_main_start(margin, dir, value),
{
    proof {
        reveal(spec_with_main_start);
    }
    if dir.is_row() {
        Rect { start: value, ..margin }
    } else {
        Rect { top: value, ..margin }
    }
}

#[verifier::opaque]
pub open spec fn spec_with_main_end(
    margin: Rect<Scalar>,
    dir: FlexDirection,
    value: Scalar,
) -> Rect<Scalar> {
    if dir.is_row() {
        Rect { end: value, ..margin }
    } else {
        Rect { bottom: value, ..margin }
    }
}

/// The margins with the one where the main axis ends set to `value`.
#[verifier::when_used_as_spec(spec_with_main_end)]
pub fn with_main_end(margin: Rect<Scalar>, dir: FlexDirection, value: Scalar) -> (r: Rect<Scalar>)
    ensures
        r == spec_with_main_end(margin, dir, value),
{
    proof {
        reveal(spec_with_main_end);
    }
    if dir.is_row() {
        Rect { end: value, ..margin }
    } else {
        Rect { bottom: value, ..margin }
    }
}

#[verifier::opaque]
pub open spec fn spec_with_cross_start(
    margin: Rect<Scalar>,
    dir: FlexDirection,
    value: Scalar,
) -> Rect<Scalar> {
    if dir.is_row() {
        Rect { top: value, ..margin }
    } else {
        Rect { start: value, ..margin }
    }
}

/// The margins with the one where the cross axis begins set to `value`.
#[verifier::when_used_as_spec(spec_with_cross_start)]
pub fn with_cross_start(
    margin: Rect<Scalar>,
    dir: FlexDirection,
    value: Scalar,
) -> (r: Rect<Scalar>)
    ensures
        r == spec_with_cross_start(margin, dir, value),
{
    proof {
        reveal(spec_with_cross_start);
    }
    if dir.is_row() {
        Rect { top: value, ..margin }
    } else {
        Rect { start: value, ..margin }
    }
}

#[verifier::opaque]
pub open spec fn spec_with_cross_end(
    margin: Rect<Scalar>,
    dir: FlexDirection,
    value: Scalar,
) -> Rect<Scalar> {
    if dir.is_row() {
        Rect { bottom: value, ..margin }
    } else {
        Rect { end: value, ..margin }
    }
}

/// The margins with the one where the cross axis ends set to `value`.
#[verifier::when_used_as_spec(spec_with_cross_end)]
pub fn with_cross_end(margin: Rect<Scalar>, dir: FlexDirection, value: Scalar) -> (r: Rect<Scalar>)
    ensures
        r == spec_with_cross_end(margin, dir, value),
{
    proof {
        reveal(spec_with_cross_end);
    }
    if dir.is_row() {
        Rect { bottom: value, ..margin }
    } else {
        Rect { end: value, ..margin }
    }
}

#[verifier::opaque]
pub open spec fn spec_auto_margins_apply(
    item: FlexItem,
    info: ChildInfo,
    cx: Container,
    value: Scalar,
) -> FlexItem {
    let first = if info.style.main_margin_start(cx.dir).is_auto() {
        with_main_start(item.margin, cx.dir, value)
    } else {
        item.margin
    };
    let second = if info.style.main_margin_end(cx.dir).is_auto() {
        with_main_end(first, cx.dir, value)
    } else {
        first
    };
    FlexItem { margin: second, ..item }
}

/// The item with each `Auto` margin on the main axis set to `value`.
#[verifier::when_used_as_spec(spec_auto_margins_apply)]
pub fn auto_margins_apply(
    item: FlexItem,
    info: ChildInfo,
    cx: Container,
    value: Scalar,
) -> (r: FlexItem)
    ensures
        r == spec_auto_margins_apply(item, info, cx, value),
        r.node == item.node,
        r.order == item.order,
{
    proof {
        reveal(spec_auto_margins_apply);
    }
    let first = if info.style.main_margin_start(cx.dir).is_auto() {
        with_main_start(item.margin, cx.dir, value)
    } else {
        item.margin
    };
    let second = if info.style.main_margin_end(cx.dir).is_auto() {
        with_main_end(first, cx.dir, value)
    } else {
        first
    };
    FlexItem { margin: second, ..item }
}

#[verifier::opaque]
pub open spec fn spec_justify_offset(
    justify: JustifyContent,
    reverse: bool,
    is_first: bool,
    free_space: Scalar,
    count: usize,
) -> Scalar {
    match justify {
        JustifyContent::FlexStart => if reverse && is_first {
            free_space
        } else {
            Scalar::zero()
        },
        JustifyContent::Center => if is_first {
            free_space.div(Scalar::from_int(2))
        } else {
            Scalar::zero()
        },
        JustifyContent::FlexEnd => if is_first && !reverse {
            free_space
        } else {
            Scalar::zero()
        },
        JustifyContent::SpaceBetween => if is_first || count == 0 {
            Scalar::zero()
        } else {
            free_space.div(Scalar::from_count((count - 1) as usize))
        },
        JustifyContent::SpaceAround => if is_first {
            free_space.div(Scalar::from_count(count)).div(Scalar::from_int(2))
        } else {
            free_space.div(Scalar::from_count(count))
        },
        JustifyContent::SpaceEvenly => if count == usize::MAX {
            Scalar::zero()
        } else {
            free_space.div(Scalar::from_count((count + 1) as usize))
        },
    }
}

/// The space before an item on the main axis, by the container's
/// `justify_content`.
#[verifier::when_used_as_spec(spec_justify_offset)]
pub fn justify_offset(
    justify: JustifyContent,
    reverse: bool,
    is_first: bool,
    free_space: Scalar,
    count: usize,
) -> (r: Scalar)
    ensures
        r == spec_justify_offset(justify, reverse, is_first, free_space, count),
{
    proof {
        reveal(spec_justify_offset);
    }
    match justify {
        JustifyContent::FlexStart => if reverse && is_first {
            free_space
        } else {
            Scalar::zero()
        },
        JustifyContent::Center => if is_first {
            free_space.div(Scalar::from_int(2))
        } else {
            Scalar::zero()
        },
        JustifyContent::FlexEnd => if is_first && !reverse {
            free_space
        } else {
            Scalar::zero()
        },
        JustifyContent::SpaceBetween => if is_first || count == 0 {
            Scalar::zero()
        } else {
            free_space.div(Scalar::from_count((count - 1) as usize))
        },
        JustifyContent::SpaceAround => if is_first {
            free_space.div(Scalar::from_count(count)).div(Scalar::from_int(2))
        } else {
            free_space.div(Scalar::from_count(count))
        },
        JustifyContent::SpaceEvenly => if count == usize::MAX {
            Scalar::zero()
        } else {
            free_space.div(Scalar::from_count((count + 1) as usize))
        },
    }
}

#[verifier::opaque]
pub open spec fn spec_justify_apply(
    item: FlexItem,
    cx: Container,
    free_space: Scalar,
    index: usize,
    line: FlexLine,
) -> FlexItem {
    let reverse = cx.dir.is_reverse();
    let is_first = if reverse {
        index < line.end && index == (line.end - 1) as usize
    } else {
        index == line.start
    };
    let count = if line.start <= line.end {
        (line.end - line.start) as usize
    } else {
        0
    };
    FlexItem {
        offset_main: justify_offset(cx.style.justify_content, reverse, is_first, free_space, count),
        ..item
    }
}

/// The item at position `index` of a line with the space before it on the main
/// axis.
#[verifier::when_used_as_spec(spec_justify_apply)]
pub fn justify_apply(
    item: FlexItem,
    cx: Container,
    free_space: Scalar,
    index: usize,
    line: FlexLine,
) -> (r: FlexItem)
    ensures
        r == spec_justify_apply(item, cx, free_space, index, line),
        r.node == item.node,
        r.order == item.order,
{
    proof {
        reveal(spec_justify_apply);
    }
    let reverse = cx.dir.is_reverse();
    let is_first = if reverse {
        index < line.end && index == (line.end - 1) as usize
    } else {
        index == line.start
    };
    let count = if line.start <= line.end {
        (line.end - line.start) as usize
    } else {
        0
    };
    FlexItem {
        offset_main: justify_offset(cx.style.justify_content, reverse, is_first, free_space, count),
        ..item
    }
}

#[verifier::opaque]
pub open spec fn spec_align_offset(
    align: AlignSelf,
    cx: Container,
    free_space: Scalar,
    max_baseline: Scalar,
    baseline: Scalar,
) -> Scalar {
    let wrap_reverse = cx.style.flex_wrap == FlexWrap::WrapReverse;
    let at_start = if wrap_reverse {
        free_space
    } else {
        Scalar::zero()
    };
    match align {
        AlignSelf::Auto => Scalar::zero(),
        AlignSelf::FlexStart => at_start,
        AlignSelf::FlexEnd => if wrap_reverse {
            Scalar::zero()
        } else {
            free_space
        },
        AlignSelf::Center => free_space.div(Scalar::from_int(2)),
        AlignSelf::Baseline => if cx.dir.is_row() {
            max_baseline.sub(baseline)
        } else {
            at_start
        },
        AlignSelf::Stretch => at_start,
    }
}

/// The offset of an item on the cross axis of its line, by its alignment.
#[verifier::when_used_as_spec(spec_align_offset)]
pub fn align_offset(
    align: AlignSelf,
    cx: Container,
    free_space: Scalar,
    max_baseline: Scalar,
    baseline: Scalar,
) -> (r: Scalar)
    ensures
        r == spec_align_offset(align, cx, free_space, max_baseline, baseline),
{
    proof {
        reveal(spec_align_offset);
    }
    let wrap_reverse = cx.style.flex_wrap == FlexWrap::WrapReverse;
    let at_start = if wrap_reverse {
        free_space
    } else {
        Scalar::zero()
    };
    match align {
        AlignSelf::Auto => Scalar::zero(),
        AlignSelf::FlexStart => at_start,
        AlignSelf::FlexEnd => if wrap_reverse {
            Scalar::zero()
        } else {
            free_space
        },
        AlignSelf::Center => free_space.div(Scalar::from_int(2)),
        AlignSelf::Baseline => if cx.dir.is_row() {
            max_baseline.sub(baseline)
        } else {
            at_start
        },
        AlignSelf::Stretch => at_start,
    }
}

#[verifier::opaque]
pub open spec fn spec_align_cross_apply(
    item: FlexItem,
    info: ChildInfo,
    cx: Container,
    line_cross: Scalar,
    max_baseline: Scalar,
) -> FlexItem {
    let free_space = line_cross.sub(item.outer_target_size.cross(cx.dir));
    let start_auto = info.style.cross_margin_start(cx.dir).is_auto();
    let end_auto = info.style.cross_margin_end(cx.dir).is_auto();
    if start_auto && end_auto {
        let half = free_space.div(Scalar::from_int(2));
        FlexItem {
            margin: with_cross_end(with_cross_start(item.margin, cx.dir, half), cx.dir, half),
            ..item
        }
    } else if start_auto {
        FlexItem { margin: with_cross_start(item.margin, cx.dir, free_space), ..item }
    } else if end_auto {
        FlexItem { margin: with_cross_end(item.margin, cx.dir, free_space), ..item }
    } else {
        FlexItem {
            offset_cross: align_offset(
                info.style.align_self(&cx.style),
                cx,
                free_space,
                max_baseline,
                item.baseline,
            ),
            ..item
        }
    }
}

/// The item aligned on the cross axis of its line: free space goes to its
/// `Auto` cross margins, or the item is offset by its alignment.
#[verifier::when_used_as_spec(spec_align_cross_apply)]
pub fn align_cross_apply(
    item: FlexItem,
    info: ChildInfo,
    cx: Container,
    line_cross: Scalar,
    max_baseline: Scalar,
) -> (r: FlexItem)
    ensures
        r == spec_align_cross_apply(item, info, cx, line_cross, max_baseline),
        r.node == item.node,
        r.order == item.order,
{
    proof {
        reveal(spec_align_cross_apply);
    }
    let free_space = line_cross.sub(item.outer_target_size.cross(cx.dir));
    let start_auto = info.style.cross_margin_start(cx.dir).is_auto();
    let end_auto = info.style.cross_margin_end(cx.dir).is_auto();
    if start_auto && end_auto {
        let half = free_space.div(Scalar::from_int(2));
        FlexItem {
            margin: with_cross_end(with_cross_start(item.margin, cx.dir, half), cx.dir, half),
            ..item
        }
    } else if start_auto {
        FlexItem { margin: with_cross_start(item.margin, cx.dir, free_space), ..item }
    } else if end_auto {
        FlexItem { margin: with_cross_end(item.margin, cx.dir, free_space), ..item }
    } else {
        FlexItem {
            offset_cross: align_offset(
                info.style.align_self(&cx.style),
                cx,
                free_space,
                max_baseline,
                item.baseline,
            ),
            ..item
        }
    }
}

#[verifier::opaque]
pub open spec fn spec_step_request(
    pass: Pass,
    item: FlexItem,
    info: ChildInfo,
    cx: Container,
) -> Option<ChildCall> {
    match pass {
        Pass::FlexBasis => flex_basis_request(item, info, cx),
        Pass::HypotheticalMain => Some(unconstrained_request(cx)),
        Pass::InitialTarget { growing } => initial_target_request(item, cx),
        Pass::Clamp => clamp_request(item, info, cx),
        Pass::HypotheticalCross => Some(hypothetical_cross_request(item, cx)),
        Pass::Baseline => Some(baseline_request(item, cx)),
        _ => None,
    }
}

/// The measurement that a pass over the items needs for one item.
#[verifier::when_used_as_spec(spec_step_request)]
pub fn step_request(
    pass: Pass,
    item: FlexItem,
    info: ChildInfo,
    cx: Container,
) -> (r: Option<ChildCall>)
    ensures
        r == spec_step_request(pass, item, info, cx),
{
    proof {
        reveal(spec_step_request);
    }
    match pass {
        Pass::FlexBasis => flex_basis_request(item, info, cx),
        Pass::HypotheticalMain => Some(unconstrained_request(cx)),
        Pass::InitialTarget { growing } => initial_target_request(item, cx),
        Pass::Clamp => clamp_request(item, info, cx),
        Pass::HypotheticalCross => Some(hypothetical_cross_request(item, cx)),
        Pass::Baseline => Some(baseline_request(item, cx)),
        _ => None,
    }
}

#[verifier::opaque]
pub open spec fn spec_step_apply(
    pass: Pass,
    item: FlexItem,
    info: ChildInfo,
    cx: Container,
    index: usize,
    result: Option<Size<Scalar>>,
    leaf_height: Scalar,
) -> FlexItem {
    match pass {
        Pass::FlexBasis => flex_basis_apply(item, info, cx, result),
        Pass::HypotheticalMain => hypothetical_main_apply(item, cx, result),
        Pass::InitialTarget { growing } => initial_target_apply(item, info, cx, growing, result),
        Pass::Distribute { share } => distribute_apply(item, info, cx, share),
        Pass::Clamp => clamp_apply(item, cx, result),
        Pass::Freeze { total_violation } => freeze_apply(item, total_violation),
        Pass::HypotheticalCross => hypothetical_cross_apply(item, cx, result),
        Pass::Baseline => FlexItem { baseline: leaf_height, ..item },
        Pass::CrossTarget { line_cross } => cross_target_apply(item, info, cx, line_cross),
        Pass::AutoMargins { value } => auto_margins_apply(item, info, cx, value),
        Pass::Justify { free_space, line } => justify_apply(item, cx, free_space, index, line),
        Pass::AlignCross { line_cross, max_baseline } => align_cross_apply(
            item,
            info,
            cx,
            line_cross,
            max_baseline,
        ),
    }
}

/// What a pass over the items makes of one item, given the measurement it asked
/// for and, for the baseline, the height found at the first leaf.
#[verifier::when_used_as_spec(spec_step_apply)]
pub fn step_apply(
    pass: Pass,
    item: FlexItem,
    info: ChildInfo,
    cx: Container,
    index: usize,
    result: Option<Size<Scalar>>,
    leaf_height: Scalar,
) -> (r: FlexItem)
    ensures
        r == spec_step_apply(pass, item, info, cx, index, result, leaf_height),
        r.node == item.node,
        r.order == item.order,
{
    proof {
        reveal(spec_step_apply);
    }
    match pass {
        Pass::FlexBasis => flex_basis_apply(item, info, cx, result),
        Pass::HypotheticalMain => hypothetical_main_apply(item, cx, result),
        Pass::InitialTarget { growing } => initial_target_apply(item, info, cx, growing, result),
        Pass::Distribute { share } => distribute_apply(item, info, cx, share),
        Pass::Clamp => clamp_apply(item, cx, result),
        Pass::Freeze { total_violation } => freeze_apply(item, total_violation),
        Pass::HypotheticalCross => hypothetical_cross_apply(item, cx, result),
        Pass::Baseline => FlexItem { baseline: leaf_height, ..item },
        Pass::CrossTarget { line_cross } => cross_target_apply(item, info, cx, line_cross),
        Pass::AutoMargins { value } => auto_margins_apply(item, info, cx, value),
        Pass::Justify { free_space, line } => justify_apply(item, cx, free_space, index, line),
        Pass::AlignCross { line_cross, max_baseline } => align_cross_apply(
            item,
            info,
            cx,
            line_cross,
            max_baseline,
        ),
    }
}

#[verifier::opaque]
pub open spec fn spec_gather_step(
    what: Gather,
    acc: Scalar,
    item: FlexItem,
    info: ChildInfo,
    cx: Container,
) -> Scalar {
    match what {
        Gather::HypotheticalOuterMain => acc.add(item.hypothetical_outer_size.main(cx.dir)),
        Gather::UsedSpace => acc.add(
            item.margin.main(cx.dir).add(
                if item.frozen {
                    item.target_size.main(cx.dir)
                } else {
                    item.flex_basis
                },
            ),
        ),
        Gather::FrozenSpace => if item.frozen {
            acc.add(item.margin.main(cx.dir).add(item.target_size.main(cx.dir)))
        } else {
            acc
        },
        Gather::UnfrozenSpace => if item.frozen {
            acc
        } else {
            acc.add(item.margin.main(cx.dir).add(item.flex_basis))
        },
        Gather::FlexGrow => if item.frozen {
            acc
        } else {
            acc.add(info.style.flex_grow)
        },
        Gather::FlexShrink => if item.frozen {
            acc
        } else {
            acc.add(info.style.flex_shrink)
        },
        Gather::ScaledShrink => if item.frozen {
            acc
        } else {
            acc.add(item.inner_flex_basis.mul(info.style.flex_shrink))
        },
        Gather::Violation => if item.frozen {
            acc
        } else {
            acc.add(item.violation)
        },
        Gather::OuterTargetMain => acc.add(item.outer_target_size.main(cx.dir)),
        Gather::MaxBaseline => acc.max(item.baseline),
        Gather::CrossExtent { max_baseline } => acc.max(
            if baseline_aligned(info, cx) {
                max_baseline.sub(item.baseline).add(item.hypothetical_outer_size.cross(cx.dir))
            } else {
                item.hypothetical_outer_size.cross(cx.dir)
            },
        ),
        Gather::AutoMargins => {
            let first = if info.style.main_margin_start(cx.dir).is_auto() {
                acc.add(Scalar::one())
            } else {
                acc
            };
            if info.style.main_margin_end(cx.dir).is_auto() {
                first.add(Scalar::one())
            } else {
                first
            }
        },
    }
}

/// One step of a sum or maximum over the items of a line.
#[verifier::when_used_as_spec(spec_gather_step)]
pub fn gather_step(
    what: Gather,
    acc: Scalar,
    item: FlexItem,
    info: ChildInfo,
    cx: Container,
) -> (r: Scalar)
    ensures
        r == spec_gather_step(what, acc, item, info, cx),
{
    proof {
        reveal(spec_gather_step);
    }
    match what {
        Gather::HypotheticalOuterMain => acc.add(item.hypothetical_outer_size.main(cx.dir)),
        Gather::UsedSpace => acc.add(
            item.margin.main(cx.dir).add(
                if item.frozen {
                    item.target_size.main(cx.dir)
                } else {
                    item.flex_basis
                },
            ),
        ),
        Gather::FrozenSpace => if item.frozen {
            acc.add(item.margin.main(cx.dir).add(item.target_size.main(cx.dir)))
        } else {
            acc
        },
        Gather::UnfrozenSpace => if item.frozen {
            acc
        } else {
            acc.add(item.margin.main(cx.dir).add(item.flex_basis))
        },
        Gather::FlexGrow => if item.frozen {
            acc
        } else {
            acc.add(info.style.flex_grow)
        },
        Gather::FlexShrink => if item.frozen {
            acc
        } else {
            acc.add(info.style.flex_shrink)
        },
        Gather::ScaledShrink => if item.frozen {
            acc
        } else {
            acc.add(item.inner_flex_basis.mul(info.style.flex_shrink))
        },
        Gather::Violation => if item.frozen {
            acc
        } else {
            acc.add(item.violation)
        },
        Gather::OuterTargetMain => acc.add(item.outer_target_size.main(cx.dir)),
        Gather::MaxBaseline => acc.max(item.baseline),
        Gather::CrossExtent { max_baseline } => acc.max(
            if baseline_aligned(info, cx) {
                max_baseline.sub(item.baseline).add(item.hypothetical_outer_size.cross(cx.dir))
            } else {
                item.hypothetical_outer_size.cross(cx.dir)
            },
        ),
        Gather::AutoMargins => {
            let first = if info.style.main_margin_start(cx.dir).is_auto() {
                acc.add(Scalar::one())
            } else {
                acc
            };
            if info.style.main_margin_end(cx.dir).is_auto() {
                first.add(Scalar::one())
            } else {
                first
            }
        },
    }
}

#[verifier::opaque]
pub open spec fn spec_with_main_size(
    cx: Container,
    longest_line: Scalar,
    line_count: usize,
) -> Container {
    let size = longest_line.add(cx.padding_border.main(cx.dir));
    let content = match cx.available_space.main(cx.dir) {
        Number::Defined(val) => if line_count > 1 && size.lt(val) {
            val
        } else {
            size
        },
        Number::Undefined => size,
    };
    let main = cx.node_size.main(cx.dir).or_else_spec(content);
    Container {
        container_size: cx.container_size.with_main(cx.dir, main),
        inner_container_size: cx.inner_container_size.with_main(
            cx.dir,
            main.sub(cx.padding_border.main(cx.dir)),
        ),
        ..cx
    }
}

/// The container with its main size: the one asked for, or the longest line
/// with padding and border, widened to the space on offer where lines wrapped.
#[verifier::when_used_as_spec(spec_with_main_size)]
pub fn with_main_size(cx: Container, longest_line: Scalar, line_count: usize) -> (r: Container)
    ensures
        r == spec_with_main_size(cx, longest_line, line_count),
        r.node == cx.node,
        r.style == cx.style,
        r.dir == cx.dir,
        r.padding_border == cx.padding_border,
        r.node_size == cx.node_size,
        r.container_size.cross(cx.dir) == cx.container_size.cross(cx.dir),
        cx.node_size.main(cx.dir) matches Number::Defined(v) ==> r.container_size.main(cx.dir) == v,
{
    proof {
        reveal(spec_with_main_size);
    }
    let size = longest_line.add(cx.padding_border.main(cx.dir));
    let content = match cx.available_space.main(cx.dir) {
        Number::Defined(val) => if line_count > 1 && size.lt(val) {
            val
        } else {
            size
        },
        Number::Undefined => size,
    };
    let main = cx.node_size.main(cx.dir).or_else(content);
    Container {
        container_size: cx.container_size.with_main(cx.dir, main),
        inner_container_size: cx.inner_container_size.with_main(
            cx.dir,
            main.sub(cx.padding_border.main(cx.dir)),
        ),
        ..cx
    }
}

#[verifier::opaque]
pub open spec fn spec_with_cross_size(cx: Container, total_cross: Scalar) -> Container {
    let cross = cx.node_size.cross(cx.dir).or_else_spec(total_cross.add(cx.padding_border.cross(cx.dir)));
    Container {
        container_size: cx.container_size.with_cross(cx.dir, cross),
        inner_container_size: cx.inner_container_size.with_cross(
            cx.dir,
            cross.sub(cx.padding_border.cross(cx.dir)),
        ),
        ..cx
    }
}

/// The container with its cross size: the one asked for, or the lines' total
/// with padding and border.
#[verifier::when_used_as_spec(spec_with_cross_size)]
pub fn with_cross_size(cx: Container, total_cross: Scalar) -> (r: Container)
    ensures
        r == spec_with_cross_size(cx, total_cross),
        r.node == cx.node,
        r.style == cx.style,
        r.dir == cx.dir,
        r.padding_border == cx.padding_border,
        r.node_size == cx.node_size,
        r.container_size.main(cx.dir) == cx.container_size.main(cx.dir),
        cx.node_size.cross(cx.dir) matches Number::Defined(v) ==> r.container_size.cross(cx.dir) == v,
{
    proof {
        reveal(spec_with_cross_size);
    }
    let cross = cx.node_size.cross(cx.dir).or_else(total_cross.add(cx.padding_border.cross(cx.dir)));
    Container {
        container_size: cx.container_size.with_cross(cx.dir, cross),
        inner_container_size: cx.inner_container_size.with_cross(
            cx.dir,
            cross.sub(cx.padding_border.cross(cx.dir)),
        ),
        ..cx
    }
}

#[verifier::opaque]
pub open spec fn spec_inner_cross(cx: Container) -> Scalar {
    cx.node_size.cross(cx.dir).sub_scalar(cx.padding_border.cross(cx.dir)).or_else_spec(Scalar::zero())
}

/// The inner cross size of a container whose cross size was asked for.
#[verifier::when_used_as_spec(spec_inner_cross)]
pub fn inner_cross(cx: Container) -> (r: Scalar)
    ensures
        r == spec_inner_cross(cx),
{
    proof {
        reveal(spec_inner_cross);
    }
    cx.node_size.cross(cx.dir).sub_scalar(cx.padding_border.cross(cx.dir)).or_else(Scalar::zero())
}

#[verifier::opaque]
pub open spec fn spec_line_offset(
    align: AlignContent,
    wrap_reverse: bool,
    is_first: bool,
    free_space: Scalar,
    count: usize,
) -> Scalar {
    match align {
        AlignContent::FlexStart => if is_first && wrap_reverse {
            free_space
        } else {
            Scalar::zero()
        },
        AlignContent::FlexEnd => if is_first && !wrap_reverse {
            free_space
        } else {
            Scalar::zero()
        },
        AlignContent::Center => if is_first {
            free_space.div(Scalar::from_int(2))
        } else {
            Scalar::zero()
        },
        AlignContent::Stretch => Scalar::zero(),
        AlignContent::SpaceBetween => if is_first || count == 0 {
            Scalar::zero()
        } else {
            free_space.div(Scalar::from_count((count - 1) as usize))
        },
        AlignContent::SpaceAround => if is_first {
            free_space.div(Scalar::from_count(count)).div(Scalar::from_int(2))
        } else {
            free_space.div(Scalar::from_count(count))
        },
    }
}

/// The space before a line on the cross axis, by the container's
/// `align_content`.
#[verifier::when_used_as_spec(spec_line_offset)]
pub fn line_offset(
    align: AlignContent,
    wrap_reverse: bool,
    is_first: bool,
    free_space: Scalar,
    count: usize,
) -> (r: Scalar)
    ensures
        r == spec_line_offset(align, wrap_reverse, is_first, free_space, count),
{
    proof {
        reveal(spec_line_offset);
    }
    match align {
        AlignContent::FlexStart => if is_first && wrap_reverse {
            free_space
        } else {
            Scalar::zero()
        },
        AlignContent::FlexEnd => if is_first && !wrap_reverse {
            free_space
        } else {
            Scalar::zero()
        },
        AlignContent::Center => if is_first {
            free_space.div(Scalar::from_int(2))
        } else {
            Scalar::zero()
        },
        AlignContent::Stretch => Scalar::zero(),
        AlignContent::SpaceBetween => if is_first || count == 0 {
            Scalar::zero()
        } else {
            free_space.div(Scalar::from_count((count - 1) as usize))
        },
        AlignContent::SpaceAround => if is_first {
            free_space.div(Scalar::from_count(count)).div(Scalar::from_int(2))
        } else {
            free_space.div(Scalar::from_count(count))
        },
    }
}

#[verifier::opaque]
pub open spec fn spec_item_location(
    item: FlexItem,
    cx: Container,
    line_offset_cross: Scalar,
    total_main: Scalar,
    total_cross: Scalar,
) -> Point<Scalar> {
    let zero = Scalar::zero();
    let offset_main = total_main.add(item.offset_main).add(item.margin.main_start(cx.dir)).add(
        item.position.main_start(cx.dir).or_else_spec(zero).sub(
            item.position.main_end(cx.dir).or_else_spec(zero),
        ),
    );
    let offset_cross = total_cross.add(item.offset_cross).add(line_offset_cross).add(
        item.margin.cross_start(cx.dir),
    ).add(
        item.position.cross_start(cx.dir).or_else_spec(zero).sub(
            item.position.cross_end(cx.dir).or_else_spec(zero),
        ),
    );
    if cx.dir.is_row() {
        Point { x: offset_main, y: offset_cross }
    } else {
        Point { x: offset_cross, y: offset_main }
    }
}

/// The position of a placed item relative to the container, given the running
/// offsets on both axes.
#[verifier::when_used_as_spec(spec_item_location)]
pub fn item_location(
    item: FlexItem,
    cx: Container,
    line_offset_cross: Scalar,
    total_main: Scalar,
    total_cross: Scalar,
) -> (r: Point<Scalar>)
    ensures
        r == spec_item_location(item, cx, line_offset_cross, total_main, total_cross),
{
    proof {
        reveal(spec_item_location);
    }
    let zero = Scalar::zero();
    let offset_main = total_main.add(item.offset_main).add(item.margin.main_start(cx.dir)).add(
        item.position.main_start(cx.dir).or_else(zero).sub(
            item.position.main_end(cx.dir).or_else(zero),
        ),
    );
    let offset_cross = total_cross.add(item.offset_cross).add(line_offset_cross).add(
        item.margin.cross_start(cx.dir),
    ).add(
        item.position.cross_start(cx.dir).or_else(zero).sub(
            item.position.cross_end(cx.dir).or_else(zero),
        ),
    );
    if cx.dir.is_row() {
        Point { x: offset_main, y: offset_cross }
    } else {
        Point { x: offset_cross, y: offset_main }
    }
}

#[verifier::opaque]
pub open spec fn spec_advance_main(
    item: FlexItem,
    cx: Container,
    total_main: Scalar,
    size: Size<Scalar>,
) -> Scalar {
    total_main.add(item.offset_main.add(item.margin.main(cx.dir)).add(size.main(cx.dir)))
}

/// The running main offset after an item of the given size was placed.
#[verifier::when_used_as_spec(spec_advance_main)]
pub fn advance_main(
    item: FlexItem,
    cx: Container,
    total_main: Scalar,
    size: Size<Scalar>,
) -> (r: Scalar)
    ensures
        r == spec_advance_main(item, cx, total_main, size),
{
    proof {
        reveal(spec_advance_main);
    }
    total_main.add(item.offset_main.add(item.margin.main(cx.dir)).add(size.main(cx.dir)))
}

#[verifier::opaque]
pub open spec fn spec_absolute_insets(style: Style, cx: Container) -> Rect<Number> {
    let zero = Scalar::zero();
    let width = Number::Defined(cx.container_size.width);
    let height = Number::Defined(cx.container_size.height);
    Rect {
        start: style.position.start.resolve(width).add_scalar(
            style.margin.start.resolve(width).or_else_spec(zero),
        ),
        end: style.position.end.resolve(width).add_scalar(style.margin.end.resolve(width).or_else_spec(zero)),
        top: style.position.top.resolve(height).add_scalar(
            style.margin.top.resolve(height).or_else_spec(zero),
        ),
        bottom: style.position.bottom.resolve(height).add_scalar(
            style.margin.bottom.resolve(height).or_else_spec(zero),
        ),
    }
}

/// The four insets of an absolutely placed child, against the container's size:
/// on each side its position plus its margin, where a margin that is not stated
/// counts as zero. A side without a stated position has no inset.
#[verifier::when_used_as_spec(spec_absolute_insets)]
pub fn absolute_insets(style: Style, cx: Container) -> (r: Rect<Number>)
    ensures
        r == spec_absolute_insets(style, cx),
{
    proof {
        reveal(spec_absolute_insets);
    }
    let zero = Scalar::zero();
    let width = Number::Defined(cx.container_size.width);
    let height = Number::Defined(cx.container_size.height);
    Rect {
        start: style.position.start.resolve(width).add_scalar(
            style.margin.start.resolve(width).or_else(zero),
        ),
        end: style.position.end.resolve(width).add_scalar(style.margin.end.resolve(width).or_else(zero)),
        top: style.position.top.resolve(height).add_scalar(
            style.margin.top.resolve(height).or_else(zero),
        ),
        bottom: style.position.bottom.resolve(height).add_scalar(
            style.margin.bottom.resolve(height).or_else(zero),
        ),
    }
}

#[verifier::opaque]
pub open spec fn spec_absolute_request(style: Style, cx: Container) -> ChildCall {
    let container = cx.container_size.to_number();
    let insets = absolute_insets(style, cx);
    let width = style.size.width.resolve(container.width).maybe_max_spec(
        style.min_size.width.resolve(container.width),
    ).maybe_min_spec(style.max_size.width.resolve(container.width)).or_else_spec(
        if insets.start.is_defined() && insets.end.is_defined() {
            container.width.sub(insets.start).sub(insets.end)
        } else {
            Number::Undefined
        },
    );
    let height = style.size.height.resolve(container.height).maybe_max_spec(
        style.min_size.height.resolve(container.height),
    ).maybe_min_spec(style.max_size.height.resolve(container.height)).or_else_spec(
        if insets.top.is_defined() && insets.bottom.is_defined() {
            container.height.sub(insets.top).sub(insets.bottom)
        } else {
            Number::Undefined
        },
    );
    ChildCall { size: Size { width, height }, parent: container, perform_layout: true }
}

/// The layout that an absolutely placed child is given: its own size within its
/// bounds, or what its insets leave of the container.
#[verifier::when_used_as_spec(spec_absolute_request)]
pub fn absolute_request(style: Style, cx: Container) -> (r: ChildCall)
    ensures
        r == spec_absolute_request(style, cx),
{
    proof {
        reveal(spec_absolute_request);
    }
    let container = cx.container_size.to_number();
    let insets = absolute_insets(style, cx);
    let width = style.size.width.resolve(container.width).maybe_max(
        style.min_size.width.resolve(container.width),
    ).maybe_min(style.max_size.width.resolve(container.width)).or_else(
        if insets.start.is_defined() && insets.end.is_defined() {
            container.width.sub(insets.start).sub(insets.end)
        } else {
            Number::Undefined
        },
    );
    let height = style.size.height.resolve(container.height).maybe_max(
        style.min_size.height.resolve(container.height),
    ).maybe_min(style.max_size.height.resolve(container.height)).or_else(
        if insets.top.is_defined() && insets.bottom.is_defined() {
            container.height.sub(insets.top).sub(insets.bottom)
        } else {
            Number::Undefined
        },
    );
    ChildCall { size: Size { width, height }, parent: container, perform_layout: true }
}

#[verifier::opaque]
pub open spec fn spec_absolute_location(
    style: Style,
    cx: Container,
    size: Size<Scalar>,
) -> Point<Scalar> {
    let zero = Scalar::zero();
    let two = Scalar::from_int(2);
    let insets = absolute_insets(style, cx);
    let inner = cx.node_inner_size;
    let free_main = cx.container_size.main(cx.dir).sub(
        size.main(cx.dir).maybe_max_spec(style.min_main_size(cx.dir).resolve(inner.main(cx.dir))).maybe_min_spec(
            style.max_main_size(cx.dir).resolve(inner.main(cx.dir)),
        ),
    );
    let free_cross = cx.container_size.cross(cx.dir).sub(
        size.cross(cx.dir).maybe_max_spec(
            style.min_cross_size(cx.dir).resolve(inner.cross(cx.dir)),
        ).maybe_min_spec(style.max_cross_size(cx.dir).resolve(inner.cross(cx.dir))),
    );
    let wrap_reverse = cx.style.flex_wrap == FlexWrap::WrapReverse;
    let offset_main = if insets.main_start(cx.dir).is_defined() {
        insets.main_start(cx.dir).or_else_spec(zero).add(cx.border.main_start(cx.dir))
    } else if insets.main_end(cx.dir).is_defined() {
        free_main.sub(insets.main_end(cx.dir).or_else_spec(zero)).sub(cx.border.main_end(cx.dir))
    } else {
        match cx.style.justify_content {
            JustifyContent::SpaceBetween | JustifyContent::FlexStart => cx.padding_border.main_start(
                cx.dir,
            ),
            JustifyContent::FlexEnd => free_main.sub(cx.padding_border.main_end(cx.dir)),
            JustifyContent::SpaceEvenly | JustifyContent::SpaceAround | JustifyContent::Center => free_main.div(
                two,
            ),
        }
    };
    let at_start = if wrap_reverse {
        free_cross.sub(cx.padding_border.cross_end(cx.dir))
    } else {
        cx.padding_border.cross_start(cx.dir)
    };
    let offset_cross = if insets.cross_start(cx.dir).is_defined() {
        insets.cross_start(cx.dir).or_else_spec(zero).add(cx.border.cross_start(cx.dir))
    } else if insets.cross_end(cx.dir).is_defined() {
        free_cross.sub(insets.cross_end(cx.dir).or_else_spec(zero)).sub(cx.border.cross_end(cx.dir))
    } else {
        match style.align_self(&cx.style) {
            AlignSelf::Auto => zero,
            AlignSelf::FlexStart => at_start,
            AlignSelf::FlexEnd => if wrap_reverse {
                cx.padding_border.cross_start(cx.dir)
            } else {
                free_cross.sub(cx.padding_border.cross_end(cx.dir))
            },
            AlignSelf::Center => free_cross.div(two),
            AlignSelf::Baseline => free_cross.div(two),
            AlignSelf::Stretch => at_start,
        }
    };
    if cx.dir.is_row() {
        Point { x: offset_main, y: offset_cross }
    } else {
        Point { x: offset_cross, y: offset_main }
    }
}

/// The position of an absolutely placed child of the given size: by its insets
/// where they are stated, by the container's justification and the child's
/// alignment otherwise.
#[verifier::when_used_as_spec(spec_absolute_location)]
pub fn absolute_location(style: Style, cx: Container, size: Size<Scalar>) -> (r: Point<Scalar>)
    ensures
        r == spec_absolute_location(style, cx, size),
{
    proof {
        reveal(spec_absolute_location);
    }
    let zero = Scalar::zero();
    let two = Scalar::from_int(2);
    let insets = absolute_insets(style, cx);
    let inner = cx.node_inner_size;
    let free_main = cx.container_size.main(cx.dir).sub(
        size.main(cx.dir).maybe_max(style.min_main_size(cx.dir).resolve(inner.main(cx.dir))).maybe_min(
            style.max_main_size(cx.dir).resolve(inner.main(cx.dir)),
        ),
    );
    let free_cross = cx.container_size.cross(cx.dir).sub(
        size.cross(cx.dir).maybe_max(
            style.min_cross_size(cx.dir).resolve(inner.cross(cx.dir)),
        ).maybe_min(style.max_cross_size(cx.dir).resolve(inner.cross(cx.dir))),
    );
    let wrap_reverse = cx.style.flex_wrap == FlexWrap::WrapReverse;
    let offset_main = if insets.main_start(cx.dir).is_defined() {
        insets.main_start(cx.dir).or_else(zero).add(cx.border.main_start(cx.dir))
    } else if insets.main_end(cx.dir).is_defined() {
        free_main.sub(insets.main_end(cx.dir).or_else(zero)).sub(cx.border.main_end(cx.dir))
    } else {
        match cx.style.justify_content {
            JustifyContent::SpaceBetween | JustifyContent::FlexStart => cx.padding_border.main_start(
                cx.dir,
            ),
            JustifyContent::FlexEnd => free_main.sub(cx.padding_border.main_end(cx.dir)),
            JustifyContent::SpaceEvenly | JustifyContent::SpaceAround | JustifyContent::Center => free_main.div(
                two,
            ),
        }
    };
    let at_start = if wrap_reverse {
        free_cross.sub(cx.padding_border.cross_end(cx.dir))
    } else {
        cx.padding_border.cross_start(cx.dir)
    };
    let offset_cross = if insets.cross_start(cx.dir).is_defined() {
        insets.cross_start(cx.dir).or_else(zero).add(cx.border.cross_start(cx.dir))
    } else if insets.cross_end(cx.dir).is_defined() {
        free_cross.sub(insets.cross_end(cx.dir).or_else(zero)).sub(cx.border.cross_end(cx.dir))
    } else {
        match style.align_self(&cx.style) {
            AlignSelf::Auto => zero,
            AlignSelf::FlexStart => at_start,
            AlignSelf::FlexEnd => if wrap_reverse {
                cx.padding_border.cross_start(cx.dir)
            } else {
                free_cross.sub(cx.padding_border.cross_end(cx.dir))
            },
            AlignSelf::Center => free_cross.div(two),
            AlignSelf::Baseline => free_cross.div(two),
            AlignSelf::Stretch => at_start,
        }
    };
    if cx.dir.is_row() {
        Point { x: offset_main, y: offset_cross }
    } else {
        Point { x: offset_cross, y: offset_main }
    }
}

#[verifier::opaque]
pub open spec fn spec_root_size(style: Style, available: Size<Number>) -> Size<Number> {
    style.size.resolve(available)
}

/// The size that the root is laid out at: what its style states, against the
/// space on offer.
#[verifier::when_used_as_spec(spec_root_size)]
pub fn root_size(style: Style, available: Size<Number>) -> (r: Size<Number>)
    ensures
        r == spec_root_size(style, available),
{
    proof {
        reveal(spec_root_size);
    }
    style.size.resolve(available)
}

#[verifier::opaque]
pub open spec fn spec_root_clamped_size(
    style: Style,
    available: Size<Number>,
    first: Size<Scalar>,
) -> Size<Number> {
    Size {
        width: Number::Defined(
            first.width.maybe_max_spec(style.min_size.width.resolve(available.width)).maybe_min_spec(
                style.max_size.width.resolve(available.width),
            ),
        ),
        height: Number::Defined(
            first.height.maybe_max_spec(style.min_size.height.resolve(available.height)).maybe_min_spec(
                style.max_size.height.resolve(available.height),
            ),
        ),
    }
}

/// The size that a root with least or greatest sizes is laid out at, from the
/// size that a first pass found.
#[verifier::when_used_as_spec(spec_root_clamped_size)]
pub fn root_clamped_size(
    style: Style,
    available: Size<Number>,
    first: Size<Scalar>,
) -> (r: Size<Number>)
    ensures
        r == spec_root_clamped_size(style, available, first),
{
    proof {
        reveal(spec_root_clamped_size);
    }
    Size {
        width: Number::Defined(
            first.width.maybe_max(style.min_size.width.resolve(available.width)).maybe_min(
                style.max_size.width.resolve(available.width),
            ),
        ),
        height: Number::Defined(
            first.height.maybe_max(style.min_size.height.resolve(available.height)).maybe_min(
                style.max_size.height.resolve(available.height),
            ),
        ),
    }
}

#[verifier::opaque]
pub open spec fn spec_rounded(layout: Layout, abs_x: Scalar, abs_y: Scalar) -> Layout {
    let x = abs_x.add(layout.location.x);
    let y = abs_y.add(layout.location.y);
    Layout {
        order: layout.order,
        size: Size {
            width: x.add(layout.size.width).round().sub(x.round()),
            height: y.add(layout.size.height).round().sub(y.round()),
        },
        location: Point { x: layout.location.x.round(), y: layout.location.y.round() },
    }
}

/// The layout of a node rounded to whole units: its position, and its size as
/// the difference of its rounded far and near edges in the root's frame.
#[verifier::when_used_as_spec(spec_rounded)]
pub fn rounded(layout: Layout, abs_x: Scalar, abs_y: Scalar) -> (r: Layout)
    ensures
        r == spec_rounded(layout, abs_x, abs_y),
{
    proof {
        reveal(spec_rounded);
    }
    let x = abs_x.add(layout.location.x);
    let y = abs_y.add(layout.location.y);
    Layout {
        order: layout.order,
        size: Size {
            width: x.add(layout.size.width).round().sub(x.round()),
            height: y.add(layout.size.height).round().sub(y.round()),
        },
        location: Point { x: layout.location.x.round(), y: layout.location.y.round() },
    }
}

} // verus!
