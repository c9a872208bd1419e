//! The parts of layout that visit no node: sums and passes over flex items,
//! lines and their sizes, and the layouts of what is not displayed.

use crate::flex::{
    gather_step, in_flow, inner_cross, line_offset, new_item, step_apply, ChildInfo, Container,
    FlexItem, FlexLine, Gather, Pass,
};
use crate::forest::{Forest, MeasureFunc, NodeId};
use crate::geometry::{Point, Size};
use crate::model;
use crate::model::{below, child_info, kids, LineStage, Tree};
use crate::number::Number;
use crate::result::Layout;
use crate::scalar::Scalar;
use crate::style::{AlignContent, Display, FlexWrap};
use vstd::prelude::*;

verus! {

/// Every item stands for a child of `node`.
pub open spec fn items_ok<M: MeasureFunc>(t: Tree<M>, node: NodeId, items: Seq<FlexItem>) -> bool {
    forall|k: int|
        0 <= k < items.len() ==> below(t, node, (#[trigger] items[k]).node) && items[k].node.index
            < t.styles.len() && kids(t, node).contains(items[k].node)
}

/// Every line is a range of the `count` items.
pub open spec fn lines_ok(lines: Seq<FlexLine>, count: nat) -> bool {
    forall|l: int| 0 <= l < lines.len() ==> (#[trigger] lines[l]).start <= lines[l].end <= count
}

/// The items `b` stand for the same nodes, at the same places, as the items `a`.
pub open spec fn same_nodes(a: Seq<FlexItem>, b: Seq<FlexItem>) -> bool {
    &&& a.len() == b.len()
    &&& forall|k: int| 0 <= k < a.len() ==> (#[trigger] b[k]).node == a[k].node && b[k].order == a[k].order
}

impl<M: MeasureFunc> Forest<M> {
    /// Against `before`, only what layout changes has changed, and no node
    /// has become dirty.
    pub open spec fn follows(&self, before: &Self) -> bool {
        &&& self.wf()
        &&& self.styles == before.styles
        &&& self.measures == before.measures
        &&& self.children == before.children
        &&& self.parents == before.parents
        &&& self.alive == before.alive
        &&& self.rank@ == before.rank@
        &&& self.rank_bound@ == before.rank_bound@
        &&& forall|a: NodeId|
            self.contains(a) && #[trigger] self.dirty@[a.index as int] ==> before.dirty@[a.index as int]
    }

    /// Against `before`, nothing that layout keeps for a node has changed
    /// but for `node` and the nodes below it.
    pub open spec fn only_below(&self, before: &Self, node: NodeId) -> bool {
        forall|a: NodeId|
            #![trigger self.dirty@[a.index as int]]
            #![trigger self.layouts@[a.index as int]]
            #![trigger self.caches@[a.index as int]]
            before.contains(a) && !before.is_ancestor_or_self(node, a) ==> self.dirty@[a.index as int]
                == before.dirty@[a.index as int] && self.layouts@[a.index as int]
                == before.layouts@[a.index as int] && self.caches@[a.index as int]
                == before.caches@[a.index as int]
    }

    /// What has changed only at and below a child of `node` has changed only
    /// at and below `node`.
    pub proof fn lemma_only_below_child(&self, before: &Self, node: NodeId, child: NodeId)
        requires
            before.wf(),
            before.contains(node),
            before.children_of(node).contains(child),
            self.only_below(before, child),
        ensures
            self.only_below(before, node),
    {
        before.lemma_children_below(node);
        assert forall|a: NodeId|
            #![trigger self.dirty@[a.index as int]]
            #![trigger self.layouts@[a.index as int]]
            #![trigger self.caches@[a.index as int]]
            before.contains(a) && !before.is_ancestor_or_self(node, a) implies self.dirty@[a.index as int]
            == before.dirty@[a.index as int] && self.layouts@[a.index as int]
            == before.layouts@[a.index as int] && self.caches@[a.index as int]
            == before.caches@[a.index as int] by {
            if before.is_ancestor_or_self(child, a) {
                let k = choose|k: int|
                    0 <= k < before.children_of(node).len() && before.children_of(node)[k] == child;
                before.lemma_below_child_is_below(node, k, a);
            }
        }
    }

    /// A child of `node` lies below `node`.
    pub proof fn lemma_child_is_below(&self, node: NodeId, child: NodeId)
        requires
            self.wf(),
            self.contains(node),
            self.children_of(node).contains(child),
        ensures
            self.contains(child),
            self.is_ancestor_or_self(node, child),
    {
        self.lemma_children_below(node);
        let k = choose|k: int| 0 <= k < self.children_of(node).len() && self.children_of(node)[k] == child;
        assert(self.parent_of(self.children_of(node)[k]) == Some(node));
        self.lemma_ancestor_unfold(node, child);
        self.lemma_ancestor_unfold(node, node);
    }

    /// What a pass reads of a child.
    pub(crate) fn child_info(&self, node: NodeId) -> (r: ChildInfo)
        requires
            self.sized(),
            self.contains(node),
        ensures
            r == child_info(self.tree(), node),
    {
        ChildInfo {
            style: self.styles[node.index],
            has_measure: self.measures[node.index].is_some(),
        }
    }

    /// A sum or maximum over the items from `lo` up to `hi`, starting from `acc`.
    pub(crate) fn gather(
        &self,
        items: &Vec<FlexItem>,
        lo: usize,
        hi: usize,
        what: Gather,
        cx: &Container,
        acc: Scalar,
    ) -> (r: Scalar)
        requires
            self.sized(),
            lo <= hi <= items@.len(),
            items_ok(self.tree(), cx.node, items@),
        ensures
            r == model::gather(self.tree(), items@, lo as int, hi as int, what, *cx, acc),
    {
        let mut i = lo;
        let mut sum = acc;
        while i < hi
            invariant
                self.sized(),
                lo <= i <= hi <= items@.len(),
                items_ok(self.tree(), cx.node, items@),
                model::gather(self.tree(), items@, lo as int, hi as int, what, *cx, acc) == model::gather(
                    self.tree(),
                    items@,
                    i as int,
                    hi as int,
                    what,
                    *cx,
                    sum,
                ),
            decreases hi - i,
        {
            let item = items[i];
            sum = gather_step(what, sum, item, self.child_info(item.node), *cx);
            i += 1;
        }
        sum
    }

    /// Number of unfrozen items from `lo` up to `hi`.
    pub(crate) fn count_unfrozen(items: &Vec<FlexItem>, lo: usize, hi: usize) -> (r: usize)
        requires
            lo <= hi <= items@.len(),
        ensures
            r == model::count_unfrozen(items@, lo as int, hi as int),
    {
        let mut i = hi;
        let mut count: usize = 0;
        while i > lo
            invariant
                lo <= i <= hi <= items@.len(),
                count == model::count_unfrozen(items@, i as int, hi as int),
                count <= hi - i,
            decreases i - lo,
        {
            i -= 1;
            if !items[i].frozen {
                count += 1;
            }
        }
        count
    }

    /// A pass that asks for no measurement, over the items from `lo` up to `hi`.
    pub(crate) fn apply_pass(
        &self,
        items: &mut Vec<FlexItem>,
        pass: Pass,
        cx: &Container,
        lo: usize,
        hi: usize,
    )
        requires
            self.sized(),
            lo <= hi <= old(items)@.len(),
            items_ok(self.tree(), cx.node, old(items)@),
        ensures
            final(items)@ == model::apply_pass(
                self.tree(),
                old(items)@,
                pass,
                *cx,
                lo as int,
                hi as int,
            ),
            same_nodes(old(items)@, final(items)@),
            items_ok(self.tree(), cx.node, final(items)@),
    {
        let ghost before = items@;
        let mut i = lo;
        while i < hi
            invariant
                self.sized(),
                lo <= i <= hi <= items@.len(),
                items_ok(self.tree(), cx.node, items@),
                same_nodes(before, items@),
                model::apply_pass(self.tree(), before, pass, *cx, lo as int, hi as int)
                    == model::apply_pass(self.tree(), items@, pass, *cx, i as int, hi as int),
            decreases hi - i,
        {
            let item = items[i];
            let next = step_apply(
                pass,
                item,
                self.child_info(item.node),
                *cx,
                i,
                None,
                Scalar::zero(),
            );
            items[i] = next;
            i += 1;
        }
    }

    /// The flex items of a container.
    pub(crate) fn build_items(&self, cx: &Container) -> (items: Vec<FlexItem>)
        requires
            self.wf(),
            self.contains(cx.node),
        ensures
            items@ == model::build_items(self.tree(), *cx, 0, Seq::empty()),
            items_ok(self.tree(), cx.node, items@),
    {
        let mut items: Vec<FlexItem> = Vec::new();
        let count = self.children[cx.node.index].len();
        let mut i: usize = 0;
        while i < count
            invariant
                self.wf(),
                self.contains(cx.node),
                count == kids(self.tree(), cx.node).len(),
                i <= count,
                items_ok(self.tree(), cx.node, items@),
                model::build_items(self.tree(), *cx, 0, Seq::empty()) == model::build_items(
                    self.tree(),
                    *cx,
                    i as int,
                    items@,
                ),
            decreases count - i,
        {
            let child = self.children[cx.node.index][i];
            proof {
                self.lemma_children_below(cx.node);
                assert(self.children_of(cx.node)[i as int] == child);
            }
            let style = self.styles[child.index];
            if in_flow(style) {
                items.push(new_item(child, i as u32, style, *cx));
            }
            i += 1;
        }
        items
    }

    /// The lines of a container.
    pub(crate) fn flex_lines(items: &Vec<FlexItem>, cx: &Container) -> (lines: Vec<FlexLine>)
        ensures
            lines@ == model::flex_lines(items@, *cx),
            lines_ok(lines@, items@.len()),
            lines@.len() >= 1,
    {
        let count = items.len();
        let mut lines: Vec<FlexLine> = Vec::new();
        if cx.style.flex_wrap == FlexWrap::NoWrap {
            lines.push(
                FlexLine { start: 0, end: count, cross_size: Scalar::zero(), offset_cross: Scalar::zero() },
            );
            assert(lines@ =~= model::flex_lines(items@, *cx));
            return lines;
        }
        let mut start: usize = 0;
        let mut length = Scalar::zero();
        let mut i: usize = 0;
        while i < count
            invariant
                count == items@.len(),
                start <= i <= count,
                lines_ok(lines@, items@.len()),
                model::collect_lines(items@, *cx, 0, 0, Scalar::zero(), Seq::empty())
                    == model::collect_lines(items@, *cx, i as int, start as int, length, lines@),
            decreases count - i,
        {
            let extent = items[i].hypothetical_outer_size.main(cx.dir);
            let longer = length.add(extent);
            let breaks = match cx.available_space.main(cx.dir) {
                Number::Defined(main) => longer.gt(main) && i > start,
                Number::Undefined => false,
            };
            if breaks {
                lines.push(
                    FlexLine { start, end: i, cross_size: Scalar::zero(), offset_cross: Scalar::zero() },
                );
                start = i;
                length = extent;
            } else {
                length = longer;
            }
            i += 1;
        }
        lines.push(
            FlexLine { start, end: count, cross_size: Scalar::zero(), offset_cross: Scalar::zero() },
        );
        lines
    }

    /// The longest main extent among the lines.
    pub(crate) fn longest_line(
        &self,
        items: &Vec<FlexItem>,
        lines: &Vec<FlexLine>,
        cx: &Container,
    ) -> (r: Scalar)
        requires
            self.sized(),
            items_ok(self.tree(), cx.node, items@),
            lines_ok(lines@, items@.len()),
        ensures
            r == model::longest_line(self.tree(), items@, lines@, *cx, 0, Scalar::lowest()),
    {
        let mut longest = Scalar::lowest();
        let mut li: usize = 0;
        while li < lines.len()
            invariant
                self.sized(),
                items_ok(self.tree(), cx.node, items@),
                lines_ok(lines@, items@.len()),
                li <= lines@.len(),
                model::longest_line(self.tree(), items@, lines@, *cx, 0, Scalar::lowest())
                    == model::longest_line(self.tree(), items@, lines@, *cx, li as int, longest),
            decreases lines.len() - li,
        {
            let line = lines[li];
            longest = longest.max(
                self.gather(items, line.start, line.end, Gather::OuterTargetMain, cx, Scalar::zero()),
            );
            li += 1;
        }
        longest
    }

    /// Sum of the cross sizes of the lines.
    pub(crate) fn sum_cross(lines: &Vec<FlexLine>) -> (r: Scalar)
        ensures
            r == model::sum_cross(lines@, 0, Scalar::zero()),
    {
        let mut sum = Scalar::zero();
        let mut li: usize = 0;
        while li < lines.len()
            invariant
                li <= lines@.len(),
                model::sum_cross(lines@, 0, Scalar::zero()) == model::sum_cross(lines@, li as int, sum),
            decreases lines.len() - li,
        {
            sum = sum.add(lines[li].cross_size);
            li += 1;
        }
        sum
    }

    /// Gives every line its cross size.
    pub(crate) fn size_lines(
        &self,
        items: &Vec<FlexItem>,
        lines: &mut Vec<FlexLine>,
        cx: &Container,
    )
        requires
            self.sized(),
            items_ok(self.tree(), cx.node, items@),
            lines_ok(old(lines)@, items@.len()),
        ensures
            final(lines)@ == model::sized_lines(self.tree(), items@, old(lines)@, *cx),
            lines_ok(final(lines)@, items@.len()),
    {
        let ghost before = lines@;
        let single = lines.len() == 1;
        let definite = cx.node_size.cross(cx.dir).is_defined();
        let mut li: usize = 0;
        while li < lines.len()
            invariant
                self.sized(),
                items_ok(self.tree(), cx.node, items@),
                lines_ok(before, items@.len()),
                lines@.len() == before.len(),
                single == (before.len() == 1),
                definite == cx.node_size.cross(cx.dir).is_defined(),
                li <= lines@.len(),
                forall|j: int|
                    0 <= j < li ==> #[trigger] lines@[j] == model::sized_lines(
                        self.tree(),
                        items@,
                        before,
                        *cx,
                    )[j],
                forall|j: int| li <= j < lines@.len() ==> #[trigger] lines@[j] == before[j],
            decreases lines.len() - li,
        {
            let line = lines[li];
            let cross_size = if single && definite {
                inner_cross(*cx)
            } else {
                let max_baseline = self.gather(
                    items,
                    line.start,
                    line.end,
                    Gather::MaxBaseline,
                    cx,
                    Scalar::zero(),
                );
                self.gather(
                    items,
                    line.start,
                    line.end,
                    Gather::CrossExtent { max_baseline },
                    cx,
                    Scalar::zero(),
                )
            };
            lines[li] = FlexLine { cross_size, ..line };
            li += 1;
        }
        assert(lines@ =~= model::sized_lines(self.tree(), items@, before, *cx));
    }

    /// Lets the lines share the definite inner cross size that they leave
    /// free, where the container stretches them.
    pub(crate) fn stretch_lines(lines: &mut Vec<FlexLine>, cx: &Container)
        requires
            old(lines)@.len() >= 1,
        ensures
            final(lines)@ == model::stretched_lines(
                old(lines)@,
                model::stretch_addition(old(lines)@, *cx),
            ),
            forall|count: nat| lines_ok(old(lines)@, count) ==> lines_ok(final(lines)@, count),
    {
        let ghost before = lines@;
        let total = Self::sum_cross(lines);
        let addition = if cx.style.align_content == AlignContent::Stretch && cx.node_size.cross(
            cx.dir,
        ).is_defined() && total.lt(inner_cross(*cx)) {
            inner_cross(*cx).sub(total).div(Scalar::from_count(lines.len()))
        } else {
            Scalar::zero()
        };
        let mut li: usize = 0;
        while li < lines.len()
            invariant
                lines@.len() == before.len(),
                li <= lines@.len(),
                forall|j: int|
                    0 <= j < li ==> #[trigger] lines@[j] == model::stretched_lines(before, addition)[j],
                forall|j: int| li <= j < lines@.len() ==> #[trigger] lines@[j] == before[j],
            decreases lines.len() - li,
        {
            let line = lines[li];
            lines[li] = FlexLine { cross_size: line.cross_size.add(addition), ..line };
            li += 1;
        }
        assert(lines@ =~= model::stretched_lines(before, addition));
        assert forall|count: nat| lines_ok(before, count) implies lines_ok(lines@, count) by {
            assert forall|l: int| 0 <= l < lines@.len() implies (#[trigger] lines@[l]).start
                <= lines@[l].end <= count by {
                assert(before[l].start <= before[l].end <= count);
            }
        }
    }

    /// Gives every line the space before it on the cross axis.
    pub(crate) fn align_lines(lines: &mut Vec<FlexLine>, cx: &Container)
        ensures
            final(lines)@ == model::aligned_lines(old(lines)@, *cx),
            forall|count: nat| lines_ok(old(lines)@, count) ==> lines_ok(final(lines)@, count),
    {
        let ghost before = lines@;
        let wrap_reverse = cx.style.flex_wrap == FlexWrap::WrapReverse;
        let free_space = cx.inner_container_size.cross(cx.dir).sub(Self::sum_cross(lines));
        let count = lines.len();
        let mut li: usize = 0;
        while li < count
            invariant
                count == before.len(),
                lines@.len() == before.len(),
                li <= lines@.len(),
                wrap_reverse == (cx.style.flex_wrap == FlexWrap::WrapReverse),
                free_space == cx.inner_container_size.cross(cx.dir).sub(
                    model::sum_cross(before, 0, Scalar::zero()),
                ),
                forall|j: int|
                    0 <= j < li ==> #[trigger] lines@[j] == model::aligned_lines(before, *cx)[j],
                forall|j: int| li <= j < lines@.len() ==> #[trigger] lines@[j] == before[j],
            decreases count - li,
        {
            let line = lines[li];
            let is_first = if wrap_reverse {
                li == count - 1
            } else {
                li == 0
            };
            lines[li] = FlexLine {
                offset_cross: line_offset(cx.style.align_content, wrap_reverse, is_first, free_space, count),
                ..line
            };
            li += 1;
        }
        assert(lines@ =~= model::aligned_lines(before, *cx));
        assert forall|n: nat| lines_ok(before, n) implies lines_ok(lines@, n) by {
            assert forall|l: int| 0 <= l < lines@.len() implies (#[trigger] lines@[l]).start
                <= lines@[l].end <= n by {
                assert(before[l].start <= before[l].end <= n);
            }
        }
    }

    /// The pass that a line stage runs on one line.
    pub(crate) fn stage_pass(
        &self,
        items: &Vec<FlexItem>,
        line: FlexLine,
        stage: LineStage,
        cx: &Container,
    ) -> (r: Pass)
        requires
            self.sized(),
            items_ok(self.tree(), cx.node, items@),
            line.start <= line.end <= items@.len(),
        ensures
            r == model::stage_pass(self.tree(), items@, line, stage, *cx),
    {
        match stage {
            LineStage::CrossTarget => Pass::CrossTarget { line_cross: line.cross_size },
            LineStage::Justify => {
                let used = self.gather(
                    items,
                    line.start,
                    line.end,
                    Gather::OuterTargetMain,
                    cx,
                    Scalar::zero(),
                );
                let free_space = cx.inner_container_size.main(cx.dir).sub(used);
                let autos = self.gather(
                    items,
                    line.start,
                    line.end,
                    Gather::AutoMargins,
                    cx,
                    Scalar::zero(),
                );
                if free_space.gt(Scalar::zero()) && autos.gt(Scalar::zero()) {
                    Pass::AutoMargins { value: free_space.div(autos) }
                } else {
                    Pass::Justify { free_space, line }
                }
            },
            LineStage::AlignCross => Pass::AlignCross {
                line_cross: line.cross_size,
                max_baseline: self.gather(
                    items,
                    line.start,
                    line.end,
                    Gather::MaxBaseline,
                    cx,
                    Scalar::zero(),
                ),
            },
        }
    }

    /// A line stage over all lines.
    pub(crate) fn apply_stage(
        &self,
        items: &mut Vec<FlexItem>,
        lines: &Vec<FlexLine>,
        stage: LineStage,
        cx: &Container,
    )
        requires
            self.sized(),
            items_ok(self.tree(), cx.node, old(items)@),
            lines_ok(lines@, old(items)@.len()),
        ensures
            final(items)@ == model::apply_stage(self.tree(), old(items)@, lines@, stage, *cx, 0),
            same_nodes(old(items)@, final(items)@),
            items_ok(self.tree(), cx.node, final(items)@),
    {
        let ghost before = items@;
        let mut li: usize = 0;
        while li < lines.len()
            invariant
                self.sized(),
                items_ok(self.tree(), cx.node, items@),
                same_nodes(before, items@),
                lines_ok(lines@, items@.len()),
                li <= lines@.len(),
                model::apply_stage(self.tree(), before, lines@, stage, *cx, 0) == model::apply_stage(
                    self.tree(),
                    items@,
                    lines@,
                    stage,
                    *cx,
                    li as int,
                ),
            decreases lines.len() - li,
        {
            let line = lines[li];
            let pass = self.stage_pass(items, line, stage, cx);
            self.apply_pass(items, pass, cx, line.start, line.end);
            li += 1;
        }
    }

    /// The height at the first leaf below `node`, whose own size is `size`.
    pub(crate) fn calc_baseline(&self, node: NodeId, size: Size<Scalar>) -> (r: Scalar)
        requires
            self.wf(),
            self.contains(node),
        ensures
            r == model::calc_baseline(self.tree(), self.state(), node, size),
    {
        let mut cur = node;
        let mut found = size;
        while self.children[cur.index].len() > 0
            invariant
                self.wf(),
                self.contains(cur),
                model::calc_baseline(self.tree(), self.state(), node, size)
                    == model::calc_baseline(self.tree(), self.state(), cur, found),
            decreases self.rank@[cur.index as int],
        {
            let child = self.children[cur.index][0];
            proof {
                self.lemma_children_below(cur);
                assert(self.children_of(cur)[0] == child);
            }
            found = match self.layouts[child.index] {
                Some(l) => l.size,
                None => Layout::new().size,
            };
            cur = child;
        }
        found.height
    }

    /// Gives `node`, at place `order` among its siblings, and all nodes below
    /// it the empty layout.
    pub(crate) fn hidden_layout(&mut self, node: NodeId, order: u32)
        requires
            old(self).wf(),
            old(self).contains(node),
        ensures
            final(self).follows(old(self)),
            final(self).only_below(old(self), node),
            final(self).state() == model::hidden_layout(old(self).tree(), old(self).state(), node, order),
        decreases old(self).rank@[node.index as int],
    {
        let ghost before = *self;
        self.layouts[node.index] = Some(
            Layout { order, size: Size::<Scalar>::zero(), location: Point::<Scalar>::zero() },
        );
        let ghost first = self.state();
        let count = self.children[node.index].len();
        let mut i: usize = 0;
        while i < count
            invariant
                before.wf(),
                before.contains(node),
                *old(self) == before,
                self.follows(&before),
                self.only_below(&before, node),
                count == kids(before.tree(), node).len(),
                i <= count,
                model::hidden_children(before.tree(), first, node, 0) == model::hidden_children(
                    before.tree(),
                    self.state(),
                    node,
                    i as int,
                ),
            decreases count - i,
        {
            let child = self.children[node.index][i];
            proof {
                self.lemma_children_below(node);
                assert(self.children_of(node)[i as int] == child);
            }
            let ghost mid = *self;
            self.hidden_layout(child, #[verifier::truncate] (i as u32));
            proof {
                self.lemma_only_below_child(&mid, node, child);
            }
            i += 1;
        }
    }

    /// Gives the children of `node` that are not displayed, and all nodes
    /// below them, the empty layout.
    pub(crate) fn hidden_layouts(&mut self, node: NodeId)
        requires
            old(self).wf(),
            old(self).contains(node),
        ensures
            final(self).follows(old(self)),
            final(self).only_below(old(self), node),
            final(self).layouts@[node.index as int] == old(self).layouts@[node.index as int],
            final(self).state() == model::hidden_layouts(old(self).tree(), old(self).state(), node, 0),
    {
        let ghost before = *self;
        let count = self.children[node.index].len();
        let mut i: usize = 0;
        while i < count
            invariant
                before.wf(),
                before.contains(node),
                self.follows(&before),
                self.only_below(&before, node),
                self.layouts@[node.index as int] == before.layouts@[node.index as int],
                count == kids(before.tree(), node).len(),
                i <= count,
                model::hidden_layouts(before.tree(), before.state(), node, 0) == model::hidden_layouts(
                    before.tree(),
                    self.state(),
                    node,
                    i as int,
                ),
            decreases count - i,
        {
            let child = self.children[node.index][i];
            proof {
                self.lemma_children_below(node);
                assert(self.children_of(node)[i as int] == child);
            }
            if self.styles[child.index].display == Display::Hidden {
                let ghost mid = *self;
                self.hidden_layout(child, #[verifier::truncate] (i as u32));
                proof {
                    self.lemma_only_below_child(&mid, node, child);
                }
            }
            i += 1;
        }
    }
}

} // verus!
