//! The second half of a container's layout: cross sizes, alignment, and the
//! placement of every child.

use crate::algo::{agrees, answered, state_agrees};
use crate::flex::{
    absolute_location, absolute_request, advance_main, item_location, spec_cache_hit, with_cross_size,
    ChildCall, Container, FlexItem, FlexLine, Pass,
};
use crate::forest::{Error, Forest, MeasureFunc};
use crate::geometry::Size;
use crate::model;
use crate::model::{child_info, kids, LineStage, Work};
use crate::number::Number;
use crate::passes::{items_ok, lines_ok, same_nodes};
use crate::result::{Cache, ComputeResult, Layout};
use crate::scalar::Scalar;
use crate::style::{AlignSelf, FlexWrap, PositionType};
use vstd::prelude::*;

verus! {

impl<M: MeasureFunc> Forest<M> {
    /// Whether any item is aligned by its baseline.
    pub(crate) fn has_baseline_item(&self, items: &Vec<FlexItem>, cx: &Container) -> (r: bool)
        requires
            self.sized(),
            items_ok(self.tree(), cx.node, items@),
        ensures
            r == model::has_baseline_item(self.tree(), items@, *cx),
    {
        let mut i: usize = 0;
        while i < items.len()
            invariant
                self.sized(),
                items_ok(self.tree(), cx.node, items@),
                i <= items@.len(),
                forall|k: int|
                    0 <= k < i ==> (#[trigger] child_info(self.tree(), items@[k].node)).style.align_self(
                        &cx.style,
                    ) != AlignSelf::Baseline,
            decreases items.len() - i,
        {
            let info = self.child_info(items[i].node);
            if info.style.align_self(&cx.style) == AlignSelf::Baseline {
                return true;
            }
            i += 1;
        }
        false
    }

    /// Sizes and offsets that follow from the hypothetical cross sizes.
    pub(crate) fn arrange(
        &self,
        items: &mut Vec<FlexItem>,
        lines: &mut Vec<FlexLine>,
        cx: &Container,
    ) -> (r: Container)
        requires
            self.sized(),
            items_ok(self.tree(), cx.node, old(items)@),
            lines_ok(old(lines)@, old(items)@.len()),
            old(lines)@.len() >= 1,
        ensures
            ({
                let w = model::arranged(
                    self.tree(),
                    Work { st: self.state(), items: old(items)@, lines: old(lines)@, cx: *cx },
                );
                &&& w.st == self.state()
                &&& w.items == final(items)@
                &&& w.lines == final(lines)@
                &&& w.cx == r
            }),
            r.node == cx.node,
            r.dir == cx.dir,
            r.node_size == cx.node_size,
            r.container_size.main(cx.dir) == cx.container_size.main(cx.dir),
            cx.node_size.cross(cx.dir) matches Number::Defined(v) ==> r.container_size.cross(cx.dir) == v,
            same_nodes(old(items)@, final(items)@),
            items_ok(self.tree(), cx.node, final(items)@),
            lines_ok(final(lines)@, final(items)@.len()),
    {
        proof {
            reveal(model::arranged);
        }
        self.size_lines(items, lines, cx);
        Self::stretch_lines(lines, cx);
        self.apply_stage(items, lines, LineStage::CrossTarget, cx);
        self.apply_stage(items, lines, LineStage::Justify, cx);
        self.apply_stage(items, lines, LineStage::AlignCross, cx);
        with_cross_size(*cx, Self::sum_cross(lines))
    }

    /// Cross sizes of the lines, the items and the container.
    pub(crate) fn cross_sizes(
        &mut self,
        items: &mut Vec<FlexItem>,
        lines: &mut Vec<FlexLine>,
        cx: &Container,
    ) -> (r: Result<Container, Error>)
        requires
            old(self).wf(),
            old(self).contains(cx.node),
            items_ok(old(self).tree(), cx.node, old(items)@),
            lines_ok(old(lines)@, old(items)@.len()),
            old(lines)@.len() >= 1,
        ensures
            final(self).follows(old(self)),
            final(self).only_below(old(self), cx.node),
            final(self).layouts@[cx.node.index as int] == old(self).layouts@[cx.node.index as int],
            match r {
                Ok(sized) => {
                    &&& model::cross_sizes(
                        old(self).tree(),
                        Work {
                            st: old(self).state(),
                            items: old(items)@,
                            lines: old(lines)@,
                            cx: *cx,
                        },
                    ) matches Some(w)
                    &&& w.st == final(self).state()
                    &&& w.items == final(items)@
                    &&& w.lines == final(lines)@
                    &&& w.cx == sized
                    &&& sized.node == cx.node
                    &&& sized.dir == cx.dir
                    &&& sized.node_size == cx.node_size
                    &&& sized.container_size.main(cx.dir) == cx.container_size.main(cx.dir)
                    &&& cx.node_size.cross(cx.dir) matches Number::Defined(v) ==> sized.container_size.cross(
                        cx.dir,
                    ) == v
                    &&& items_ok(final(self).tree(), cx.node, final(items)@)
                    &&& lines_ok(final(lines)@, final(items)@.len())
                },
                Err(e) => e == Error::Measure && model::cross_sizes(
                    old(self).tree(),
                    Work { st: old(self).state(), items: old(items)@, lines: old(lines)@, cx: *cx },
                ) is None,
            },
        decreases old(self).rank@[cx.node.index as int], 5nat, 0nat,
    {
        let count = items.len();
        match self.run_pass(items, Pass::HypotheticalCross, cx, 0, count) {
            Err(e) => {
                return Err(e);
            },
            Ok(()) => {},
        }
        if self.has_baseline_item(items, cx) {
            match self.run_pass(items, Pass::Baseline, cx, 0, count) {
                Err(e) => {
                    return Err(e);
                },
                Ok(()) => {},
            }
        }
        Ok(self.arrange(items, lines, cx))
    }

    /// Lays out and places the items of a line.
    pub(crate) fn place_items(
        &mut self,
        items: &Vec<FlexItem>,
        line: FlexLine,
        cx: &Container,
        total_cross: Scalar,
    ) -> (r: Result<(), Error>)
        requires
            old(self).wf(),
            old(self).contains(cx.node),
            line.start <= line.end <= items@.len(),
            items_ok(old(self).tree(), cx.node, items@),
        ensures
            final(self).follows(old(self)),
            final(self).only_below(old(self), cx.node),
            final(self).layouts@[cx.node.index as int] == old(self).layouts@[cx.node.index as int],
            state_agrees(
                r,
                model::place_items(
                    old(self).tree(),
                    old(self).state(),
                    items@,
                    line,
                    *cx,
                    0,
                    cx.padding_border.main_start(cx.dir),
                    total_cross,
                ),
                final(self).state(),
            ),
        decreases old(self).rank@[cx.node.index as int], 1nat, 0nat,
    {
        let ghost before = *self;
        let count = line.end - line.start;
        let reverse = cx.dir.is_reverse();
        let mut total_main = cx.padding_border.main_start(cx.dir);
        let mut k: usize = 0;
        while k < count
            invariant
                before.wf(),
                *old(self) == before,
                self.follows(&before),
                self.only_below(&before, cx.node),
                self.layouts@[cx.node.index as int] == before.layouts@[cx.node.index as int],
                self.contains(cx.node),
                line.start <= line.end <= items@.len(),
                count == line.end - line.start,
                reverse == cx.dir.is_reverse(),
                k <= count,
                items_ok(before.tree(), cx.node, items@),
                model::place_items(
                    before.tree(),
                    before.state(),
                    items@,
                    line,
                    *cx,
                    0,
                    cx.padding_border.main_start(cx.dir),
                    total_cross,
                ) == model::place_items(
                    before.tree(),
                    self.state(),
                    items@,
                    line,
                    *cx,
                    k as int,
                    total_main,
                    total_cross,
                ),
            decreases count - k,
        {
            let item = items[if reverse {
                line.end - 1 - k
            } else {
                line.start + k
            }];
            let call = ChildCall {
                size: item.target_size.to_number(),
                parent: cx.container_size.to_number(),
                perform_layout: true,
            };
            match self.visit_child(cx.node, item.node, call) {
                Err(e) => {
                    return Err(e);
                },
                Ok(size) => {
                    proof {
                        before.lemma_child_is_below(cx.node, item.node);
                    }
                    self.layouts[item.node.index] = Some(
                        Layout {
                            order: item.order,
                            size,
                            location: item_location(item, *cx, line.offset_cross, total_main, total_cross),
                        },
                    );
                    total_main = advance_main(item, *cx, total_main, size);
                },
            }
            k += 1;
        }
        Ok(())
    }

    /// Lays out and places the items of all lines.
    pub(crate) fn place_lines(
        &mut self,
        items: &Vec<FlexItem>,
        lines: &Vec<FlexLine>,
        cx: &Container,
    ) -> (r: Result<(), Error>)
        requires
            old(self).wf(),
            old(self).contains(cx.node),
            lines_ok(lines@, items@.len()),
            items_ok(old(self).tree(), cx.node, items@),
        ensures
            final(self).follows(old(self)),
            final(self).only_below(old(self), cx.node),
            final(self).layouts@[cx.node.index as int] == old(self).layouts@[cx.node.index as int],
            state_agrees(
                r,
                model::place_lines(
                    old(self).tree(),
                    old(self).state(),
                    items@,
                    lines@,
                    *cx,
                    0,
                    cx.padding_border.cross_start(cx.dir),
                ),
                final(self).state(),
            ),
        decreases old(self).rank@[cx.node.index as int], 2nat, 0nat,
    {
        let ghost before = *self;
        let count = lines.len();
        let wrap_reverse = cx.style.flex_wrap == FlexWrap::WrapReverse;
        let mut total_cross = cx.padding_border.cross_start(cx.dir);
        let mut k: usize = 0;
        while k < count
            invariant
                before.wf(),
                *old(self) == before,
                self.follows(&before),
                self.only_below(&before, cx.node),
                self.layouts@[cx.node.index as int] == before.layouts@[cx.node.index as int],
                self.contains(cx.node),
                count == lines@.len(),
                wrap_reverse == (cx.style.flex_wrap == FlexWrap::WrapReverse),
                k <= count,
                lines_ok(lines@, items@.len()),
                items_ok(before.tree(), cx.node, items@),
                model::place_lines(
                    before.tree(),
                    before.state(),
                    items@,
                    lines@,
                    *cx,
                    0,
                    cx.padding_border.cross_start(cx.dir),
                ) == model::place_lines(
                    before.tree(),
                    self.state(),
                    items@,
                    lines@,
                    *cx,
                    k as int,
                    total_cross,
                ),
            decreases count - k,
        {
            let line = lines[if wrap_reverse {
                count - 1 - k
            } else {
                k
            }];
            match self.place_items(items, line, cx, total_cross) {
                Err(e) => {
                    return Err(e);
                },
                Ok(()) => {},
            }
            total_cross = total_cross.add(line.offset_cross.add(line.cross_size));
            k += 1;
        }
        Ok(())
    }

    /// Lays out and places the absolutely placed children of the container.
    pub(crate) fn place_absolute(&mut self, cx: &Container) -> (r: Result<(), Error>)
        requires
            old(self).wf(),
            old(self).contains(cx.node),
        ensures
            final(self).follows(old(self)),
            final(self).only_below(old(self), cx.node),
            final(self).layouts@[cx.node.index as int] == old(self).layouts@[cx.node.index as int],
            state_agrees(
                r,
                model::place_absolute(old(self).tree(), old(self).state(), *cx, 0),
                final(self).state(),
            ),
        decreases old(self).rank@[cx.node.index as int], 1nat, 0nat,
    {
        let ghost before = *self;
        let count = self.children[cx.node.index].len();
        let mut i: usize = 0;
        while i < count
            invariant
                before.wf(),
                *old(self) == before,
                self.follows(&before),
                self.only_below(&before, cx.node),
                self.layouts@[cx.node.index as int] == before.layouts@[cx.node.index as int],
                self.contains(cx.node),
                count == kids(before.tree(), cx.node).len(),
                i <= count,
                model::place_absolute(before.tree(), before.state(), *cx, 0) == model::place_absolute(
                    before.tree(),
                    self.state(),
                    *cx,
                    i as int,
                ),
            decreases count - i,
        {
            let child = self.children[cx.node.index][i];
            proof {
                self.lemma_children_below(cx.node);
                assert(self.children_of(cx.node)[i as int] == child);
            }
            let style = self.styles[child.index];
            if style.position_type == PositionType::Absolute {
                match self.visit_child(cx.node, child, absolute_request(style, *cx)) {
                    Err(e) => {
                        return Err(e);
                    },
                    Ok(size) => {
                        proof {
                            before.lemma_child_is_below(cx.node, child);
                        }
                        self.layouts[child.index] = Some(
                            Layout {
                                order: #[verifier::truncate]
                                (i as u32),
                                size,
                                location: absolute_location(style, *cx, size),
                            },
                        );
                    },
                }
            }
            i += 1;
        }
        Ok(())
    }

    /// Aligns the lines, lays out and places every child, and gives what is
    /// not displayed the empty layout.
    pub(crate) fn placement(
        &mut self,
        items: &Vec<FlexItem>,
        lines: &mut Vec<FlexLine>,
        cx: &Container,
    ) -> (r: Result<(), Error>)
        requires
            old(self).wf(),
            old(self).contains(cx.node),
            lines_ok(old(lines)@, items@.len()),
            items_ok(old(self).tree(), cx.node, items@),
        ensures
            final(self).follows(old(self)),
            final(self).only_below(old(self), cx.node),
            final(self).layouts@[cx.node.index as int] == old(self).layouts@[cx.node.index as int],
            state_agrees(
                r,
                model::placement(
                    old(self).tree(),
                    Work { st: old(self).state(), items: items@, lines: old(lines)@, cx: *cx },
                ),
                final(self).state(),
            ),
        decreases old(self).rank@[cx.node.index as int], 5nat, 0nat,
    {
        Self::align_lines(lines, cx);
        match self.place_lines(items, lines, cx) {
            Err(e) => {
                return Err(e);
            },
            Ok(()) => {},
        }
        match self.place_absolute(cx) {
            Err(e) => {
                return Err(e);
            },
            Ok(()) => {},
        }
        self.hidden_layouts(cx.node);
        Ok(())
    }

    /// Sizes a node with children, and lays them out where the request asks
    /// for layout.
    pub(crate) fn layout_container(
        &mut self,
        cx: &Container,
        call: ChildCall,
    ) -> (r: Result<Size<Scalar>, Error>)
        requires
            old(self).wf(),
            old(self).contains(cx.node),
            cx.node_size == call.size,
            !old(self).dirty@[cx.node.index as int],
        ensures
            final(self).follows(old(self)),
            final(self).only_below(old(self), cx.node),
            final(self).layouts@[cx.node.index as int] == old(self).layouts@[cx.node.index as int],
            agrees(
                r,
                model::layout_container(old(self).tree(), old(self).state(), *cx, call),
                final(self).state(),
            ),
            r matches Ok(size) ==> answered(final(self).tree(), final(self).state(), cx.node, call, size),
        decreases old(self).rank@[cx.node.index as int], 6nat, 0nat,
    {
        proof {
            reveal(spec_cache_hit);
        }
        let (mut items, mut lines, with_main) = match self.main_sizes(cx) {
            Err(e) => {
                return Err(e);
            },
            Ok(found) => found,
        };
        let sized = match self.cross_sizes(&mut items, &mut lines, &with_main) {
            Err(e) => {
                return Err(e);
            },
            Ok(sized) => sized,
        };
        let size = sized.container_size;
        if call.perform_layout {
            match self.placement(&items, &mut lines, &sized) {
                Err(e) => {
                    return Err(e);
                },
                Ok(()) => {},
            }
        }
        self.caches[cx.node.index] = Some(
            Cache {
                node_size: call.size,
                parent_size: call.parent,
                perform_layout: call.perform_layout,
                result: ComputeResult { size },
            },
        );
        Ok(size)
    }
}

} // verus!
