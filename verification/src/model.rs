//! What layout computes, as a function of the tree and of the state that it
//! carries from node to node.
//!
//! The tree part of a forest (styles, measurers, children) is fixed during a
//! run. The state part (dirty flags, layouts, remembered results and the count
//! of measurer calls) is threaded through every visit of a node, in the order
//! in which the algorithm makes them. A result of `None` stands for a run that
//! a failing measurer has ended.

use crate::flex::{
    absolute_location, absolute_request, advance_main, cache_hit, container, gather_step, in_flow,
    inner_cross, item_location, leaf_size, line_offset, new_item, root_clamped_size, root_size,
    round_free_space, rounded, step_apply, step_request, with_cross_size, with_main_size, ChildCall,
    ChildInfo, Container, FlexItem, FlexLine, Gather, Pass, Shares,
};
use crate::forest::{Forest, MeasureFunc, NodeId};
use crate::geometry::{Point, Size};
use crate::number::{Number, OrElse};
use crate::result::{Cache, ComputeResult, Layout};
use crate::scalar::Scalar;
use crate::style::{AlignContent, AlignSelf, Display, FlexWrap, PositionType, Style};
use vstd::prelude::*;

verus! {

/// The part of a forest that layout reads and does not change.
pub struct Tree<M> {
    pub styles: Seq<Style>,
    pub measures: Seq<Option<M>>,
    pub children: Seq<Vec<NodeId>>,
    pub rank: Seq<nat>,
}

/// The part of a forest that layout changes.
pub struct LayoutState {
    pub dirty: Seq<bool>,
    pub layouts: Seq<Option<Layout>>,
    pub caches: Seq<Option<Cache>>,
    pub calls: u64,
}

/// The items and lines of a container under layout, with the state so far.
pub struct Work {
    pub st: LayoutState,
    pub items: Seq<FlexItem>,
    pub lines: Seq<FlexLine>,
    pub cx: Container,
}

/// The passes that run line by line with values gathered from each line.
#[derive(Clone, Copy, Debug, PartialEq, Eq, Structural)]
pub enum LineStage {
    CrossTarget,
    Justify,
    AlignCross,
}

impl LayoutState {
    /// The state with `node` marked clean.
    pub open spec fn cleaned(self, node: NodeId) -> LayoutState {
        LayoutState { dirty: self.dirty.update(node.index as int, false), ..self }
    }

    /// The state with `layout` as the layout of `node`.
    pub open spec fn placed(self, node: NodeId, layout: Layout) -> LayoutState {
        LayoutState { layouts: self.layouts.update(node.index as int, Some(layout)), ..self }
    }

    /// The state with `cache` remembered for `node`.
    pub open spec fn remembered(self, node: NodeId, cache: Cache) -> LayoutState {
        LayoutState { caches: self.caches.update(node.index as int, Some(cache)), ..self }
    }

    /// The state after one more call of a measurer.
    pub open spec fn counted(self) -> LayoutState {
        LayoutState {
            calls: if self.calls < u64::MAX {
                (self.calls + 1) as u64
            } else {
                self.calls
            },
            ..self
        }
    }

    /// The layout of `node`, or the empty layout where none was computed.
    pub open spec fn layout_or_new(self, node: NodeId) -> Layout {
        match self.layouts[node.index as int] {
            Some(l) => l,
            None => Layout::new(),
        }
    }
}

impl<M: MeasureFunc> Forest<M> {
    /// The fixed part of the forest.
    pub open spec fn tree(&self) -> Tree<M> {
        Tree {
            styles: self.styles@,
            measures: self.measures@,
            children: self.children@,
            rank: self.rank@,
        }
    }

    /// The part of the forest that layout changes.
    pub open spec fn state(&self) -> LayoutState {
        LayoutState {
            dirty: self.dirty@,
            layouts: self.layouts@,
            caches: self.caches@,
            calls: self.measure_calls,
        }
    }
}

/// What a pass reads of the child `node`.
pub open spec fn child_info<M: MeasureFunc>(t: Tree<M>, node: NodeId) -> ChildInfo {
    ChildInfo {
        style: t.styles[node.index as int],
        has_measure: t.measures[node.index as int] is Some,
    }
}

/// The children of `node`.
pub open spec fn kids<M: MeasureFunc>(t: Tree<M>, node: NodeId) -> Seq<NodeId> {
    t.children[node.index as int]@
}

/// Whether `child` may be visited from `parent`: it ranks below it.
pub open spec fn below<M: MeasureFunc>(t: Tree<M>, parent: NodeId, child: NodeId) -> bool {
    &&& child.index < t.rank.len()
    &&& parent.index < t.rank.len()
    &&& t.rank[child.index as int] < t.rank[parent.index as int]
}

/// The flex items of a container: its children that are in flow and displayed,
/// in order, from child `i` on, appended to `items`.
pub open spec fn build_items<M: MeasureFunc>(
    t: Tree<M>,
    cx: Container,
    i: int,
    items: Seq<FlexItem>,
) -> Seq<FlexItem>
    decreases kids(t, cx.node).len() - i,
{
    if i < 0 || i >= kids(t, cx.node).len() {
        items
    } else {
        let child = kids(t, cx.node)[i];
        let style = t.styles[child.index as int];
        build_items(
            t,
            cx,
            i + 1,
            if in_flow(style) {
                items.push(new_item(child, i as u32, style, cx))
            } else {
                items
            },
        )
    }
}

/// A sum or maximum over the items from `lo` up to `hi`, starting from `acc`.
pub open spec fn gather<M: MeasureFunc>(
    t: Tree<M>,
    items: Seq<FlexItem>,
    lo: int,
    hi: int,
    what: Gather,
    cx: Container,
    acc: Scalar,
) -> Scalar
    decreases hi - lo,
{
    if lo >= hi {
        acc
    } else {
        gather(
            t,
            items,
            lo + 1,
            hi,
            what,
            cx,
            gather_step(what, acc, items[lo], child_info(t, items[lo].node), cx),
        )
    }
}

/// Number of unfrozen items from `lo` up to `hi`.
pub open spec fn count_unfrozen(items: Seq<FlexItem>, lo: int, hi: int) -> nat
    decreases hi - lo,
{
    if lo >= hi {
        0
    } else {
        count_unfrozen(items, lo + 1, hi) + if items[lo].frozen {
            0nat
        } else {
            1nat
        }
    }
}

/// A pass that asks for no measurement, over the items from `lo` up to `hi`.
pub open spec fn apply_pass<M: MeasureFunc>(
    t: Tree<M>,
    items: Seq<FlexItem>,
    pass: Pass,
    cx: Container,
    lo: int,
    hi: int,
) -> Seq<FlexItem>
    decreases hi - lo,
{
    if lo >= hi {
        items
    } else {
        apply_pass(
            t,
            items.update(
                lo,
                step_apply(
                    pass,
                    items[lo],
                    child_info(t, items[lo].node),
                    cx,
                    lo as usize,
                    None,
                    Scalar::zero(),
                ),
            ),
            pass,
            cx,
            lo + 1,
            hi,
        )
    }
}

/// The lines of a wrapping container: items are collected until the next one
/// would exceed the main space on offer; the first item of a line always stays.
pub open spec fn collect_lines(
    items: Seq<FlexItem>,
    cx: Container,
    i: int,
    start: int,
    length: Scalar,
    lines: Seq<FlexLine>,
) -> Seq<FlexLine>
    decreases items.len() - i,
{
    if i < 0 || i >= items.len() {
        lines.push(
            FlexLine {
                start: start as usize,
                end: items.len() as usize,
                cross_size: Scalar::zero(),
                offset_cross: Scalar::zero(),
            },
        )
    } else {
        let extent = items[i].hypothetical_outer_size.main(cx.dir);
        let longer = length.add(extent);
        if cx.available_space.main(cx.dir) matches Number::Defined(main) && longer.gt(main) && i
            > start {
            collect_lines(
                items,
                cx,
                i + 1,
                i,
                extent,
                lines.push(
                    FlexLine {
                        start: start as usize,
                        end: i as usize,
                        cross_size: Scalar::zero(),
                        offset_cross: Scalar::zero(),
                    },
                ),
            )
        } else {
            collect_lines(items, cx, i + 1, start, longer, lines)
        }
    }
}

/// The lines of a container: one line where it does not wrap.
pub open spec fn flex_lines(items: Seq<FlexItem>, cx: Container) -> Seq<FlexLine> {
    if cx.style.flex_wrap == FlexWrap::NoWrap {
        seq![
            FlexLine {
                start: 0,
                end: items.len() as usize,
                cross_size: Scalar::zero(),
                offset_cross: Scalar::zero(),
            },
        ]
    } else {
        collect_lines(items, cx, 0, 0, Scalar::zero(), Seq::empty())
    }
}

/// The longest main extent among the lines from `li` on, and `acc`.
pub open spec fn longest_line<M: MeasureFunc>(
    t: Tree<M>,
    items: Seq<FlexItem>,
    lines: Seq<FlexLine>,
    cx: Container,
    li: int,
    acc: Scalar,
) -> Scalar
    decreases lines.len() - li,
{
    if li < 0 || li >= lines.len() {
        acc
    } else {
        longest_line(
            t,
            items,
            lines,
            cx,
            li + 1,
            acc.max(
                gather(
                    t,
                    items,
                    lines[li].start as int,
                    lines[li].end as int,
                    Gather::OuterTargetMain,
                    cx,
                    Scalar::zero(),
                ),
            ),
        )
    }
}

/// Sum of the cross sizes of the lines from `li` on, added to `acc`.
pub open spec fn sum_cross(lines: Seq<FlexLine>, li: int, acc: Scalar) -> Scalar
    decreases lines.len() - li,
{
    if li < 0 || li >= lines.len() {
        acc
    } else {
        sum_cross(lines, li + 1, acc.add(lines[li].cross_size))
    }
}

/// The cross size of a line: the container's inner cross size where that is
/// definite and the line is the only one, else the largest cross extent of its
/// items.
pub open spec fn line_cross_size<M: MeasureFunc>(
    t: Tree<M>,
    items: Seq<FlexItem>,
    line: FlexLine,
    cx: Container,
    single: bool,
) -> Scalar {
    if single && cx.node_size.cross(cx.dir).is_defined() {
        inner_cross(cx)
    } else {
        let max_baseline = gather(
            t,
            items,
            line.start as int,
            line.end as int,
            Gather::MaxBaseline,
            cx,
            Scalar::zero(),
        );
        gather(
            t,
            items,
            line.start as int,
            line.end as int,
            Gather::CrossExtent { max_baseline },
            cx,
            Scalar::zero(),
        )
    }
}

/// The lines with their cross sizes.
pub open spec fn sized_lines<M: MeasureFunc>(
    t: Tree<M>,
    items: Seq<FlexItem>,
    lines: Seq<FlexLine>,
    cx: Container,
) -> Seq<FlexLine> {
    Seq::new(
        lines.len(),
        |i: int|
            FlexLine {
                cross_size: line_cross_size(t, items, lines[i], cx, lines.len() == 1),
                ..lines[i]
            },
    )
}

/// What `align_content: Stretch` adds to each line: an equal share of the
/// definite inner cross size that the lines leave free.
pub open spec fn stretch_addition(lines: Seq<FlexLine>, cx: Container) -> Scalar {
    let total = sum_cross(lines, 0, Scalar::zero());
    if cx.style.align_content == AlignContent::Stretch && cx.node_size.cross(cx.dir).is_defined()
        && total.lt(inner_cross(cx)) {
        inner_cross(cx).sub(total).div(Scalar::from_count(lines.len() as usize))
    } else {
        Scalar::zero()
    }
}

/// The lines with `addition` added to each cross size.
pub open spec fn stretched_lines(lines: Seq<FlexLine>, addition: Scalar) -> Seq<FlexLine> {
    Seq::new(
        lines.len(),
        |i: int| FlexLine { cross_size: lines[i].cross_size.add(addition), ..lines[i] },
    )
}

/// The lines with the space before each on the cross axis.
pub open spec fn aligned_lines(lines: Seq<FlexLine>, cx: Container) -> Seq<FlexLine> {
    let wrap_reverse = cx.style.flex_wrap == FlexWrap::WrapReverse;
    let free_space = cx.inner_container_size.cross(cx.dir).sub(sum_cross(lines, 0, Scalar::zero()));
    Seq::new(
        lines.len(),
        |i: int|
            FlexLine {
                offset_cross: line_offset(
                    cx.style.align_content,
                    wrap_reverse,
                    if wrap_reverse {
                        i == lines.len() - 1
                    } else {
                        i == 0
                    },
                    free_space,
                    lines.len() as usize,
                ),
                ..lines[i]
            },
    )
}

/// The pass that a line stage runs on one line.
pub open spec fn stage_pass<M: MeasureFunc>(
    t: Tree<M>,
    items: Seq<FlexItem>,
    line: FlexLine,
    stage: LineStage,
    cx: Container,
) -> Pass {
    let lo = line.start as int;
    let hi = line.end as int;
    match stage {
        LineStage::CrossTarget => Pass::CrossTarget { line_cross: line.cross_size },
        LineStage::Justify => {
            let used = gather(t, items, lo, hi, Gather::OuterTargetMain, cx, Scalar::zero());
            let free_space = cx.inner_container_size.main(cx.dir).sub(used);
            let autos = gather(t, items, lo, hi, Gather::AutoMargins, cx, Scalar::zero());
            if free_space.gt(Scalar::zero()) && autos.gt(Scalar::zero()) {
                Pass::AutoMargins { value: free_space.div(autos) }
            } else {
                Pass::Justify { free_space, line }
            }
        },
        LineStage::AlignCross => Pass::AlignCross {
            line_cross: line.cross_size,
            max_baseline: gather(t, items, lo, hi, Gather::MaxBaseline, cx, Scalar::zero()),
        },
    }
}

/// A line stage over the lines from `li` on.
pub open spec fn apply_stage<M: MeasureFunc>(
    t: Tree<M>,
    items: Seq<FlexItem>,
    lines: Seq<FlexLine>,
    stage: LineStage,
    cx: Container,
    li: int,
) -> Seq<FlexItem>
    decreases lines.len() - li,
{
    if li < 0 || li >= lines.len() {
        items
    } else {
        apply_stage(
            t,
            apply_pass(
                t,
                items,
                stage_pass(t, items, lines[li], stage, cx),
                cx,
                lines[li].start as int,
                lines[li].end as int,
            ),
            lines,
            stage,
            cx,
            li + 1,
        )
    }
}

/// Whether any item is aligned by its baseline.
pub open spec fn has_baseline_item<M: MeasureFunc>(
    t: Tree<M>,
    items: Seq<FlexItem>,
    cx: Container,
) -> bool {
    exists|i: int|
        0 <= i < items.len() && (#[trigger] child_info(t, items[i].node)).style.align_self(&cx.style)
            == AlignSelf::Baseline
}

/// The height at the first leaf below `node`: of `size` where `node` has no
/// child, else of what is found below the layout of its first child.
pub open spec fn calc_baseline<M: MeasureFunc>(
    t: Tree<M>,
    st: LayoutState,
    node: NodeId,
    size: Size<Scalar>,
) -> Scalar
    decreases t.rank[node.index as int],
{
    if kids(t, node).len() == 0 {
        size.height
    } else {
        let child = kids(t, node)[0];
        if below(t, node, child) {
            calc_baseline(t, st, child, st.layout_or_new(child).size)
        } else {
            size.height
        }
    }
}

/// The state after `node`, at place `order` among its siblings, and all nodes
/// below it were given the empty layout.
pub open spec fn hidden_layout<M: MeasureFunc>(
    t: Tree<M>,
    st: LayoutState,
    node: NodeId,
    order: u32,
) -> LayoutState
    decreases t.rank[node.index as int], 1nat, 0nat,
{
    hidden_children(
        t,
        st.placed(
            node,
            Layout { order, size: Size::<Scalar>::zero(), location: Point::<Scalar>::zero() },
        ),
        node,
        0,
    )
}

/// The state after the children of `node` from `i` on, and all nodes below
/// them, were given the empty layout.
pub open spec fn hidden_children<M: MeasureFunc>(
    t: Tree<M>,
    st: LayoutState,
    node: NodeId,
    i: int,
) -> LayoutState
    decreases t.rank[node.index as int], 0nat, kids(t, node).len() - i,
{
    if i < 0 || i >= kids(t, node).len() {
        st
    } else {
        let child = kids(t, node)[i];
        if below(t, node, child) {
            hidden_children(t, hidden_layout(t, st, child, i as u32), node, i + 1)
        } else {
            st
        }
    }
}

/// The state after the children of `node` from `i` on that are not displayed
/// were hidden with all nodes below them.
pub open spec fn hidden_layouts<M: MeasureFunc>(
    t: Tree<M>,
    st: LayoutState,
    node: NodeId,
    i: int,
) -> LayoutState
    decreases kids(t, node).len() - i,
{
    if i < 0 || i >= kids(t, node).len() {
        st
    } else {
        let child = kids(t, node)[i];
        hidden_layouts(
            t,
            if t.styles[child.index as int].display == Display::Hidden {
                hidden_layout(t, st, child, i as u32)
            } else {
                st
            },
            node,
            i + 1,
        )
    }
}

/// The layouts after `node` and all nodes below it were rounded to whole
/// units, `node` lying at (`abs_x`, `abs_y`) from the root's origin.
pub open spec fn round_node<M: MeasureFunc>(
    t: Tree<M>,
    layouts: Seq<Option<Layout>>,
    node: NodeId,
    abs_x: Scalar,
    abs_y: Scalar,
) -> Seq<Option<Layout>>
    decreases t.rank[node.index as int], 1nat, 0nat,
{
    match layouts[node.index as int] {
        Some(layout) => round_children(
            t,
            layouts.update(node.index as int, Some(rounded(layout, abs_x, abs_y))),
            node,
            0,
            abs_x.add(layout.location.x),
            abs_y.add(layout.location.y),
        ),
        None => round_children(t, layouts, node, 0, abs_x, abs_y),
    }
}

/// The layouts after the children of `node` from `i` on and all nodes below
/// them were rounded, `node` lying at (`abs_x`, `abs_y`).
pub open spec fn round_children<M: MeasureFunc>(
    t: Tree<M>,
    layouts: Seq<Option<Layout>>,
    node: NodeId,
    i: int,
    abs_x: Scalar,
    abs_y: Scalar,
) -> Seq<Option<Layout>>
    decreases t.rank[node.index as int], 0nat, kids(t, node).len() - i,
{
    if i < 0 || i >= kids(t, node).len() {
        layouts
    } else {
        let child = kids(t, node)[i];
        if below(t, node, child) {
            round_children(t, round_node(t, layouts, child, abs_x, abs_y), node, i + 1, abs_x, abs_y)
        } else {
            layouts
        }
    }
}

/// Size of a node, and the state after the visit: the node is clean; a
/// remembered result that answers the request is returned as it is; a leaf is
/// sized by the request, its measurer or its padding and border; a container
/// is laid out by the flexible box algorithm.
pub open spec fn layout_node<M: MeasureFunc>(
    t: Tree<M>,
    st: LayoutState,
    node: NodeId,
    call: ChildCall,
) -> Option<(LayoutState, Size<Scalar>)>
    decreases t.rank[node.index as int], 9nat, 0nat,
{
    let st = st.cleaned(node);
    match remembered_size(st, node, call) {
        Some(size) => Some((st, size)),
        None => {
            let cx = container(node, t.styles[node.index as int], call.size, call.parent);
            if kids(t, node).len() == 0 {
                layout_leaf(t, st, cx, call)
            } else if cx.node == node {
                layout_container(t, st, cx, call)
            } else {
                None
            }
        },
    }
}

/// The size remembered for `node`, if what is remembered answers the request.
pub open spec fn remembered_size(
    st: LayoutState,
    node: NodeId,
    call: ChildCall,
) -> Option<Size<Scalar>> {
    match st.caches[node.index as int] {
        Some(cache) => if cache_hit(cache, call.size, call.parent, call.perform_layout) {
            Some(cache.result.size)
        } else {
            None
        },
        None => None,
    }
}

/// The result remembered for a container or a measured leaf.
pub open spec fn cache_entry(call: ChildCall, size: Size<Scalar>) -> Cache {
    Cache {
        node_size: call.size,
        parent_size: call.parent,
        perform_layout: call.perform_layout,
        result: ComputeResult { size },
    }
}

/// Size of a node without children.
pub open spec fn layout_leaf<M: MeasureFunc>(
    t: Tree<M>,
    st: LayoutState,
    cx: Container,
    call: ChildCall,
) -> Option<(LayoutState, Size<Scalar>)> {
    if call.size.width.is_defined() && call.size.height.is_defined() {
        Some(
            (
                st,
                Size {
                    width: call.size.width.or_else_spec(Scalar::zero()),
                    height: call.size.height.or_else_spec(Scalar::zero()),
                },
            ),
        )
    } else {
        match t.measures[cx.node.index as int] {
            Some(m) => match m.measured(call.size) {
                Ok(size) => Some((st.counted().remembered(cx.node, cache_entry(call, size)), size)),
                Err(_) => None,
            },
            None => Some((st, leaf_size(cx))),
        }
    }
}

/// A visit of `child` from the container `parent`.
pub open spec fn visit_child<M: MeasureFunc>(
    t: Tree<M>,
    st: LayoutState,
    parent: NodeId,
    child: NodeId,
    call: ChildCall,
) -> Option<(LayoutState, Size<Scalar>)>
    decreases t.rank[parent.index as int], 0nat, 0nat,
{
    if below(t, parent, child) {
        layout_node(t, st, child, call)
    } else {
        None
    }
}

/// A pass over the items from `lo` up to `hi`: each item in turn is measured
/// as the pass asks and changed as the pass says.
pub open spec fn run_pass<M: MeasureFunc>(
    t: Tree<M>,
    st: LayoutState,
    items: Seq<FlexItem>,
    pass: Pass,
    cx: Container,
    lo: int,
    hi: int,
) -> Option<(LayoutState, Seq<FlexItem>)>
    decreases t.rank[cx.node.index as int], 1nat, hi - lo,
{
    if lo >= hi {
        Some((st, items))
    } else {
        let item = items[lo];
        let info = child_info(t, item.node);
        match step_request(pass, item, info, cx) {
            None => run_pass(
                t,
                st,
                items.update(
                    lo,
                    step_apply(pass, item, info, cx, lo as usize, None, Scalar::zero()),
                ),
                pass,
                cx,
                lo + 1,
                hi,
            ),
            Some(call) => match visit_child(t, st, cx.node, item.node, call) {
                None => None,
                Some((st1, size)) => run_pass(
                    t,
                    st1,
                    items.update(
                        lo,
                        step_apply(
                            pass,
                            item,
                            info,
                            cx,
                            lo as usize,
                            Some(size),
                            calc_baseline(t, st1, item.node, size),
                        ),
                    ),
                    pass,
                    cx,
                    lo + 1,
                    hi,
                ),
            },
        }
    }
}

/// What one round of flexing distributes over a line.
pub open spec fn round_shares<M: MeasureFunc>(
    t: Tree<M>,
    items: Seq<FlexItem>,
    line: FlexLine,
    cx: Container,
    growing: bool,
    initial_free_space: Scalar,
) -> Shares {
    let lo = line.start as int;
    let hi = line.end as int;
    let zero = Scalar::zero();
    let used = gather(
        t,
        items,
        lo,
        hi,
        Gather::UnfrozenSpace,
        cx,
        gather(t, items, lo, hi, Gather::FrozenSpace, cx, zero),
    );
    let sum_grow = gather(t, items, lo, hi, Gather::FlexGrow, cx, zero);
    let sum_shrink = gather(t, items, lo, hi, Gather::FlexShrink, cx, zero);
    Shares {
        growing,
        free_space: round_free_space(cx, growing, initial_free_space, used, sum_grow, sum_shrink),
        sum_grow,
        sum_shrink,
        sum_scaled: gather(t, items, lo, hi, Gather::ScaledShrink, cx, zero),
    }
}

/// The rounds of flexing of one line: while items are unfrozen, free space is
/// distributed over them, their targets are clamped, and those whose clamping
/// goes with the total violation are frozen. The rounds would also end with
/// a round that froze no item; there is none, as
/// [`crate::rounds::lemma_round_makes_progress`] shows.
pub open spec fn flex_rounds<M: MeasureFunc>(
    t: Tree<M>,
    st: LayoutState,
    items: Seq<FlexItem>,
    line: FlexLine,
    cx: Container,
    growing: bool,
    initial_free_space: Scalar,
) -> Option<(LayoutState, Seq<FlexItem>)>
    decreases t.rank[cx.node.index as int], 2nat, count_unfrozen(items, line.start as int, line.end as int),
{
    let lo = line.start as int;
    let hi = line.end as int;
    let count = count_unfrozen(items, lo, hi);
    if count == 0 {
        Some((st, items))
    } else {
        let share = round_shares(t, items, line, cx, growing, initial_free_space);
        let shared = apply_pass(t, items, Pass::Distribute { share }, cx, lo, hi);
        match run_pass(t, st, shared, Pass::Clamp, cx, lo, hi) {
            None => None,
            Some((st1, clamped)) => {
                let total_violation = gather(t, clamped, lo, hi, Gather::Violation, cx, Scalar::zero());
                let frozen = apply_pass(t, clamped, Pass::Freeze { total_violation }, cx, lo, hi);
                if count_unfrozen(frozen, lo, hi) < count {
                    flex_rounds(t, st1, frozen, line, cx, growing, initial_free_space)
                } else {
                    Some((st1, frozen))
                }
            },
        }
    }
}

/// The flexible lengths of one line.
pub open spec fn resolve_line<M: MeasureFunc>(
    t: Tree<M>,
    st: LayoutState,
    items: Seq<FlexItem>,
    line: FlexLine,
    cx: Container,
) -> Option<(LayoutState, Seq<FlexItem>)>
    decreases t.rank[cx.node.index as int], 3nat, 0nat,
{
    let lo = line.start as int;
    let hi = line.end as int;
    let zero = Scalar::zero();
    let outer = gather(t, items, lo, hi, Gather::HypotheticalOuterMain, cx, zero);
    let growing = outer.lt(cx.node_inner_size.main(cx.dir).or_else_spec(zero));
    match run_pass(t, st, items, Pass::InitialTarget { growing }, cx, lo, hi) {
        None => None,
        Some((st1, items1)) => {
            let used = gather(t, items1, lo, hi, Gather::UsedSpace, cx, zero);
            let initial_free_space = cx.node_inner_size.main(cx.dir).sub_scalar(used).or_else_spec(
                zero,
            );
            flex_rounds(t, st1, items1, line, cx, growing, initial_free_space)
        },
    }
}

/// The flexible lengths of the lines from `li` on.
pub open spec fn resolve_lines<M: MeasureFunc>(
    t: Tree<M>,
    st: LayoutState,
    items: Seq<FlexItem>,
    lines: Seq<FlexLine>,
    cx: Container,
    li: int,
) -> Option<(LayoutState, Seq<FlexItem>)>
    decreases t.rank[cx.node.index as int], 4nat, lines.len() - li,
{
    if li < 0 || li >= lines.len() {
        Some((st, items))
    } else {
        match resolve_line(t, st, items, lines[li], cx) {
            None => None,
            Some((st1, items1)) => resolve_lines(t, st1, items1, lines, cx, li + 1),
        }
    }
}

/// Main sizes: flex basis and hypothetical main size of every item, the lines,
/// the flexible lengths, and the main size of the container.
pub open spec fn main_sizes<M: MeasureFunc>(
    t: Tree<M>,
    st: LayoutState,
    cx: Container,
) -> Option<Work>
    decreases t.rank[cx.node.index as int], 5nat, 0nat,
{
    let items = build_items(t, cx, 0, Seq::empty());
    match run_pass(t, st, items, Pass::FlexBasis, cx, 0, items.len() as int) {
        None => None,
        Some((st1, items1)) => match run_pass(
            t,
            st1,
            items1,
            Pass::HypotheticalMain,
            cx,
            0,
            items1.len() as int,
        ) {
            None => None,
            Some((st2, items2)) => {
                let lines = flex_lines(items2, cx);
                match resolve_lines(t, st2, items2, lines, cx, 0) {
                    None => None,
                    Some((st3, items3)) => Some(
                        Work {
                            st: st3,
                            items: items3,
                            lines,
                            cx: with_main_size(
                                cx,
                                longest_line(t, items3, lines, cx, 0, Scalar::lowest()),
                                lines.len() as usize,
                            ),
                        },
                    ),
                }
            },
        }
    }
}

/// The cross sizes of the lines and of the items in them, the offsets of the
/// items on both axes, and the cross size of the container.
#[verifier::opaque]
pub open spec fn arranged<M: MeasureFunc>(t: Tree<M>, w: Work) -> Work {
    let sized = sized_lines(t, w.items, w.lines, w.cx);
    let lines = stretched_lines(sized, stretch_addition(sized, w.cx));
    let targets = apply_stage(t, w.items, lines, LineStage::CrossTarget, w.cx, 0);
    let justified = apply_stage(t, targets, lines, LineStage::Justify, w.cx, 0);
    let aligned = apply_stage(t, justified, lines, LineStage::AlignCross, w.cx, 0);
    Work {
        st: w.st,
        items: aligned,
        lines,
        cx: with_cross_size(w.cx, sum_cross(lines, 0, Scalar::zero())),
    }
}

/// Cross sizes: the hypothetical cross size of every item, baselines where an
/// item asks for them, and what follows from them.
pub open spec fn cross_sizes<M: MeasureFunc>(t: Tree<M>, w: Work) -> Option<Work>
    decreases t.rank[w.cx.node.index as int], 5nat, 0nat,
{
    match run_pass(t, w.st, w.items, Pass::HypotheticalCross, w.cx, 0, w.items.len() as int) {
        None => None,
        Some((st1, items1)) => if has_baseline_item(t, items1, w.cx) {
            match run_pass(t, st1, items1, Pass::Baseline, w.cx, 0, items1.len() as int) {
                None => None,
                Some((st2, items2)) => Some(arranged(t, Work { st: st2, items: items2, ..w })),
            }
        } else {
            Some(arranged(t, Work { st: st1, items: items1, ..w }))
        },
    }
}

/// The items of a line laid out and placed, from the `k`-th in main order on.
pub open spec fn place_items<M: MeasureFunc>(
    t: Tree<M>,
    st: LayoutState,
    items: Seq<FlexItem>,
    line: FlexLine,
    cx: Container,
    k: int,
    total_main: Scalar,
    total_cross: Scalar,
) -> Option<LayoutState>
    decreases t.rank[cx.node.index as int], 1nat, line.end - line.start - k,
{
    if k < 0 || k >= line.end - line.start {
        Some(st)
    } else {
        let item = items[if cx.dir.is_reverse() {
            line.end - 1 - k
        } else {
            line.start + k
        }];
        match visit_child(
            t,
            st,
            cx.node,
            item.node,
            ChildCall {
                size: item.target_size.to_number(),
                parent: cx.container_size.to_number(),
                perform_layout: true,
            },
        ) {
            None => None,
            Some((st1, size)) => place_items(
                t,
                st1.placed(
                    item.node,
                    Layout {
                        order: item.order,
                        size,
                        location: item_location(item, cx, line.offset_cross, total_main, total_cross),
                    },
                ),
                items,
                line,
                cx,
                k + 1,
                advance_main(item, cx, total_main, size),
                total_cross,
            ),
        }
    }
}

/// The lines laid out and placed, from the `k`-th in cross order on.
pub open spec fn place_lines<M: MeasureFunc>(
    t: Tree<M>,
    st: LayoutState,
    items: Seq<FlexItem>,
    lines: Seq<FlexLine>,
    cx: Container,
    k: int,
    total_cross: Scalar,
) -> Option<LayoutState>
    decreases t.rank[cx.node.index as int], 2nat, lines.len() - k,
{
    if k < 0 || k >= lines.len() {
        Some(st)
    } else {
        let line = lines[if cx.style.flex_wrap == FlexWrap::WrapReverse {
            lines.len() - 1 - k
        } else {
            k
        }];
        match place_items(
            t,
            st,
            items,
            line,
            cx,
            0,
            cx.padding_border.main_start(cx.dir),
            total_cross,
        ) {
            None => None,
            Some(st1) => place_lines(
                t,
                st1,
                items,
                lines,
                cx,
                k + 1,
                total_cross.add(line.offset_cross.add(line.cross_size)),
            ),
        }
    }
}

/// The absolutely placed children of the container from `i` on, laid out and
/// placed.
pub open spec fn place_absolute<M: MeasureFunc>(
    t: Tree<M>,
    st: LayoutState,
    cx: Container,
    i: int,
) -> Option<LayoutState>
    decreases t.rank[cx.node.index as int], 1nat, kids(t, cx.node).len() - i,
{
    if i < 0 || i >= kids(t, cx.node).len() {
        Some(st)
    } else {
        let child = kids(t, cx.node)[i];
        let style = t.styles[child.index as int];
        if style.position_type == PositionType::Absolute {
            match visit_child(t, st, cx.node, child, absolute_request(style, cx)) {
                None => None,
                Some((st1, size)) => place_absolute(
                    t,
                    st1.placed(
                        child,
                        Layout { order: i as u32, size, location: absolute_location(style, cx, size) },
                    ),
                    cx,
                    i + 1,
                ),
            }
        } else {
            place_absolute(t, st, cx, i + 1)
        }
    }
}

/// Placement: the lines are aligned, every item is laid out at its target size
/// and placed, then the absolutely placed children, and what is not displayed
/// is given the empty layout.
pub open spec fn placement<M: MeasureFunc>(t: Tree<M>, w: Work) -> Option<LayoutState>
    decreases t.rank[w.cx.node.index as int], 5nat, 0nat,
{
    let lines = aligned_lines(w.lines, w.cx);
    match place_lines(t, w.st, w.items, lines, w.cx, 0, w.cx.padding_border.cross_start(w.cx.dir)) {
        None => None,
        Some(st1) => match place_absolute(t, st1, w.cx, 0) {
            None => None,
            Some(st2) => Some(hidden_layouts(t, st2, w.cx.node, 0)),
        },
    }
}

/// Size of a node with children, and the state after its layout.
pub open spec fn layout_container<M: MeasureFunc>(
    t: Tree<M>,
    st: LayoutState,
    cx: Container,
    call: ChildCall,
) -> Option<(LayoutState, Size<Scalar>)>
    decreases t.rank[cx.node.index as int], 6nat, 0nat,
{
    match main_sizes(t, st, cx) {
        Some(w1) if w1.cx.node == cx.node => match cross_sizes(t, w1) {
            Some(w2) if w2.cx.node == cx.node => {
                let size = w2.cx.container_size;
                if !call.perform_layout {
                    Some((w2.st.remembered(cx.node, cache_entry(call, size)), size))
                } else {
                    match placement(t, w2) {
                        None => None,
                        Some(st3) => Some((st3.remembered(cx.node, cache_entry(call, size)), size)),
                    }
                }
            },
            _ => None,
        },
        _ => None,
    }
}

/// The request that lays out a root in the space `available`.
pub open spec fn root_call(style: Style, available: Size<Number>) -> ChildCall {
    ChildCall { size: root_size(style, available), parent: available, perform_layout: true }
}

/// The request that sizes a root with least or greatest sizes before it is
/// laid out.
pub open spec fn sizing_call(style: Style, available: Size<Number>) -> ChildCall {
    ChildCall { perform_layout: false, ..root_call(style, available) }
}

/// The request that lays out a root with least or greatest sizes, once the
/// sizing has found the size `first`.
pub open spec fn bounded_call(style: Style, available: Size<Number>, first: Size<Scalar>) -> ChildCall {
    ChildCall { size: root_clamped_size(style, available, first), ..root_call(style, available) }
}

/// Whether a visit of `node` for `call` that finds no answer remembers its
/// result: the node has children, or a measurer that is asked.
pub open spec fn remembers<M: MeasureFunc>(t: Tree<M>, node: NodeId, call: ChildCall) -> bool {
    kids(t, node).len() > 0 || (t.measures[node.index as int] is Some && !(call.size.width.is_defined()
        && call.size.height.is_defined()))
}

/// Size of the root in the space `available`, and the state after its
/// layout: a root with least or greatest sizes is first sized, then laid out
/// at that size within its bounds.
#[verifier::opaque]
pub open spec fn sized_root<M: MeasureFunc>(
    t: Tree<M>,
    st: LayoutState,
    root: NodeId,
    available: Size<Number>,
) -> Option<(LayoutState, Size<Scalar>)> {
    let style = t.styles[root.index as int];
    if style.has_min_max() {
        match layout_node(t, st, root, sizing_call(style, available)) {
            None => None,
            Some((st1, first)) => layout_node(t, st1, root, bounded_call(style, available, first)),
        }
    } else {
        layout_node(t, st, root, root_call(style, available))
    }
}

/// The request that the layout of a root ends with.
#[verifier::opaque]
pub open spec fn last_call<M: MeasureFunc>(
    t: Tree<M>,
    st: LayoutState,
    root: NodeId,
    available: Size<Number>,
) -> Option<ChildCall> {
    let style = t.styles[root.index as int];
    if style.has_min_max() {
        match layout_node(t, st, root, sizing_call(style, available)) {
            None => None,
            Some((_, first)) => Some(bounded_call(style, available, first)),
        }
    } else {
        Some(root_call(style, available))
    }
}

/// Whether what the state remembers for a root answers every request that a
/// layout of the root makes of it: for a root without least or greatest
/// sizes there is nothing to ask; a root with such sizes has children, and
/// is answered both when it is sized and when it is laid out at the size
/// found.
pub open spec fn answers_again<M: MeasureFunc>(
    t: Tree<M>,
    st: LayoutState,
    root: NodeId,
    available: Size<Number>,
) -> bool {
    let style = t.styles[root.index as int];
    !style.has_min_max() || (kids(t, root).len() > 0 && match remembered_size(
        st,
        root,
        sizing_call(style, available),
    ) {
        Some(first) => remembered_size(st, root, bounded_call(style, available, first)) is Some,
        None => false,
    })
}

/// The layout of a root of the given size: it lies at the origin.
pub open spec fn root_layout(size: Size<Scalar>) -> Layout {
    Layout { order: 0, size, location: Point::<Scalar>::zero() }
}

/// The state after the layout of the tree under `root`, before rounding.
pub open spec fn unrounded<M: MeasureFunc>(
    t: Tree<M>,
    st: LayoutState,
    root: NodeId,
    available: Size<Number>,
) -> Option<LayoutState> {
    match sized_root(t, st, root, available) {
        None => None,
        Some((st1, size)) => Some(st1.placed(root, root_layout(size))),
    }
}

/// The state after the layout of the tree under `root` in the space
/// `available`: the root is sized and laid out, it lies at the origin, and
/// all layouts are rounded to whole units.
pub open spec fn layout_tree<M: MeasureFunc>(
    t: Tree<M>,
    st: LayoutState,
    root: NodeId,
    available: Size<Number>,
) -> Option<LayoutState> {
    match unrounded(t, st, root, available) {
        None => None,
        Some(placed) => Some(
            LayoutState {
                layouts: round_node(t, placed.layouts, root, Scalar::zero(), Scalar::zero()),
                ..placed
            },
        ),
    }
}

/// What a run from the state `before` leaves in the state `after` besides
/// the layouts: one layout per node before rounding, and, for a root whose
/// visit remembers its result, the answer to the request that the run ended
/// with.
pub open spec fn settled<M: MeasureFunc>(
    t: Tree<M>,
    before: LayoutState,
    after: LayoutState,
    root: NodeId,
    available: Size<Number>,
) -> bool {
    match sized_root(t, before, root, available) {
        None => true,
        Some((st, size)) => {
            &&& st.layouts.len() == t.styles.len()
            &&& last_call(t, before, root, available) matches Some(call) && (remembers(t, root, call)
                ==> remembered_size(after, root, call) == Some(size))
        },
    }
}

} // verus!
