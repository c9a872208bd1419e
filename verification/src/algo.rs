//! The flexible box algorithm on the forest.
//!
//! Every function here visits nodes: it sizes or lays out children of the
//! container at hand, which changes the state that the forest keeps for them.
//! Each contract names the function of [`crate::model`] that gives the result
//! and the state after the call.

use crate::flex::{
    cache_hit, container, leaf_size, round_free_space, spec_cache_hit, step_apply, step_request,
    with_main_size, ChildCall, Container, FlexItem, FlexLine, Gather, Pass, Shares,
};
use crate::forest::{Error, Forest, MeasureFunc, NodeId};
use crate::geometry::Size;
use crate::model;
use crate::model::{below, LayoutState, Tree};
use crate::number::{Number, OrElse};
use crate::passes::{items_ok, lines_ok, same_nodes};
use crate::rounds::lemma_round_makes_progress;
use crate::result::{Cache, ComputeResult};
use crate::scalar::Scalar;
use vstd::prelude::*;

verus! {

/// Whether two states are the same, field by field.
pub open spec fn same_state(a: LayoutState, b: LayoutState) -> bool {
    &&& a.dirty =~= b.dirty
    &&& a.layouts =~= b.layouts
    &&& a.caches =~= b.caches
    &&& a.calls == b.calls
}

/// Whether the state `st` answers the request `call` for `node` with `size`,
/// as far as a visit of `node` remembers its result.
pub open spec fn answered<M: MeasureFunc>(
    t: Tree<M>,
    st: LayoutState,
    node: NodeId,
    call: ChildCall,
    size: Size<Scalar>,
) -> bool {
    model::remembers(t, node, call) ==> model::remembered_size(st, node, call) == Some(size)
}

/// Whether `r` and the state `st` are what the model expects: the expected
/// value and state on success, and a failed measurer where none is expected.
pub open spec fn agrees<T>(
    r: Result<T, Error>,
    expected: Option<(LayoutState, T)>,
    st: LayoutState,
) -> bool {
    match r {
        Ok(value) => expected matches Some((s, v)) && v == value && same_state(s, st),
        Err(e) => e == Error::Measure && expected is None,
    }
}

/// Whether `r`, the state `st` and the items `items` are what the model expects.
pub open spec fn items_agree(
    r: Result<(), Error>,
    expected: Option<(LayoutState, Seq<FlexItem>)>,
    st: LayoutState,
    items: Seq<FlexItem>,
) -> bool {
    match r {
        Ok(_) => expected matches Some((s, i)) && i =~= items && same_state(s, st),
        Err(e) => e == Error::Measure && expected is None,
    }
}

/// Whether `r` and the state `st` are what the model expects.
pub open spec fn state_agrees(
    r: Result<(), Error>,
    expected: Option<LayoutState>,
    st: LayoutState,
) -> bool {
    match r {
        Ok(_) => expected matches Some(s) && same_state(s, st),
        Err(e) => e == Error::Measure && expected is None,
    }
}

impl<M: MeasureFunc> Forest<M> {
    /// Sizes `node` for the request `call`, and lays out what is below it
    /// where the request asks for layout.
    pub(crate) fn compute_internal(
        &mut self,
        node: NodeId,
        call: ChildCall,
    ) -> (r: Result<Size<Scalar>, Error>)
        requires
            old(self).wf(),
            old(self).contains(node),
        ensures
            final(self).follows(old(self)),
            final(self).only_below(old(self), node),
            final(self).layouts@[node.index as int] == old(self).layouts@[node.index as int],
            agrees(r, model::layout_node(old(self).tree(), old(self).state(), node, call), final(self).state()),
            r matches Ok(size) ==> answered(final(self).tree(), final(self).state(), node, call, size),
        decreases old(self).rank@[node.index as int], 9nat, 0nat,
    {
        proof {
            reveal(spec_cache_hit);
        }
        self.dirty[node.index] = false;
        match self.caches[node.index] {
            Some(cache) => {
                if cache_hit(cache, call.size, call.parent, call.perform_layout) {
                    return Ok(cache.result.size);
                }
            },
            None => {},
        }
        let cx = container(node, self.styles[node.index], call.size, call.parent);
        if self.children[node.index].len() == 0 {
            self.layout_leaf(&cx, call)
        } else {
            self.layout_container(&cx, call)
        }
    }

    /// Sizes a node without children.
    pub(crate) fn layout_leaf(
        &mut self,
        cx: &Container,
        call: ChildCall,
    ) -> (r: Result<Size<Scalar>, Error>)
        requires
            old(self).wf(),
            old(self).contains(cx.node),
            old(self).children_of(cx.node).len() == 0,
            !old(self).dirty@[cx.node.index as int],
        ensures
            final(self).follows(old(self)),
            final(self).only_below(old(self), cx.node),
            final(self).layouts@[cx.node.index as int] == old(self).layouts@[cx.node.index as int],
            agrees(
                r,
                model::layout_leaf(old(self).tree(), old(self).state(), *cx, call),
                final(self).state(),
            ),
            r matches Ok(size) ==> answered(final(self).tree(), final(self).state(), cx.node, call, size),
    {
        proof {
            reveal(spec_cache_hit);
        }
        if call.size.width.is_defined() && call.size.height.is_defined() {
            return Ok(
                Size {
                    width: call.size.width.or_else(Scalar::zero()),
                    height: call.size.height.or_else(Scalar::zero()),
                },
            );
        }
        let measured = match &self.measures[cx.node.index] {
            Some(m) => Some(m.measure(call.size)),
            None => None,
        };
        match measured {
            Some(Ok(size)) => {
                if self.measure_calls < u64::MAX {
                    self.measure_calls = self.measure_calls + 1;
                }
                self.caches[cx.node.index] = Some(
                    Cache {
                        node_size: call.size,
                        parent_size: call.parent,
                        perform_layout: call.perform_layout,
                        result: ComputeResult { size },
                    },
                );
                Ok(size)
            },
            Some(Err(_)) => Err(Error::Measure),
            None => Ok(leaf_size(*cx)),
        }
    }

    /// Visits `child` from the container `parent`.
    pub(crate) fn visit_child(
        &mut self,
        parent: NodeId,
        child: NodeId,
        call: ChildCall,
    ) -> (r: Result<Size<Scalar>, Error>)
        requires
            old(self).wf(),
            old(self).contains(parent),
            old(self).contains(child),
            old(self).children_of(parent).contains(child),
        ensures
            final(self).follows(old(self)),
            final(self).only_below(old(self), parent),
            final(self).layouts@[parent.index as int] == old(self).layouts@[parent.index as int],
            agrees(
                r,
                model::visit_child(old(self).tree(), old(self).state(), parent, child, call),
                final(self).state(),
            ),
        decreases old(self).rank@[parent.index as int], 0nat, 0nat,
    {
        proof {
            self.lemma_children_below(parent);
        }
        let ghost before = *self;
        let r = self.compute_internal(child, call);
        proof {
            self.lemma_only_below_child(&before, parent, child);
        }
        r
    }

    /// A pass over the items from `lo` up to `hi`.
    pub(crate) fn run_pass(
        &mut self,
        items: &mut Vec<FlexItem>,
        pass: Pass,
        cx: &Container,
        lo: usize,
        hi: usize,
    ) -> (r: Result<(), Error>)
        requires
            old(self).wf(),
            old(self).contains(cx.node),
            lo <= hi <= old(items)@.len(),
            items_ok(old(self).tree(), cx.node, old(items)@),
        ensures
            final(self).follows(old(self)),
            final(self).only_below(old(self), cx.node),
            final(self).layouts@[cx.node.index as int] == old(self).layouts@[cx.node.index as int],
            same_nodes(old(items)@, final(items)@),
            items_ok(final(self).tree(), cx.node, final(items)@),
            items_agree(
                r,
                model::run_pass(
                    old(self).tree(),
                    old(self).state(),
                    old(items)@,
                    pass,
                    *cx,
                    lo as int,
                    hi as int,
                ),
                final(self).state(),
                final(items)@,
            ),
        decreases old(self).rank@[cx.node.index as int], 1nat, 0nat,
    {
        let ghost before = *self;
        let ghost start_items = items@;
        let mut i = lo;
        while i < hi
            invariant
                before.wf(),
                *old(self) == before,
                self.follows(&before),
                self.only_below(&before, cx.node),
                self.layouts@[cx.node.index as int] == before.layouts@[cx.node.index as int],
                self.contains(cx.node),
                lo <= i <= hi <= items@.len(),
                start_items == old(items)@,
                same_nodes(start_items, items@),
                items_ok(before.tree(), cx.node, items@),
                model::run_pass(
                    before.tree(),
                    before.state(),
                    start_items,
                    pass,
                    *cx,
                    lo as int,
                    hi as int,
                ) == model::run_pass(before.tree(), self.state(), items@, pass, *cx, i as int, hi as int),
            decreases hi - i,
        {
            let item = items[i];
            let info = self.child_info(item.node);
            let next = match step_request(pass, item, info, *cx) {
                None => step_apply(pass, item, info, *cx, i, None, Scalar::zero()),
                Some(call) => {
                    match self.visit_child(cx.node, item.node, call) {
                        Err(e) => {
                            return Err(e);
                        },
                        Ok(size) => {
                            let leaf_height = self.calc_baseline(item.node, size);
                            step_apply(pass, item, info, *cx, i, Some(size), leaf_height)
                        },
                    }
                },
            };
            items[i] = next;
            i += 1;
        }
        Ok(())
    }

    /// What one round of flexing distributes over a line.
    pub(crate) fn round_shares(
        &self,
        items: &Vec<FlexItem>,
        line: FlexLine,
        cx: &Container,
        growing: bool,
        initial_free_space: Scalar,
    ) -> (r: Shares)
        requires
            self.sized(),
            items_ok(self.tree(), cx.node, items@),
            line.start <= line.end <= items@.len(),
        ensures
            r == model::round_shares(self.tree(), items@, line, *cx, growing, initial_free_space),
    {
        let zero = Scalar::zero();
        let frozen = self.gather(items, line.start, line.end, Gather::FrozenSpace, cx, zero);
        let used = self.gather(items, line.start, line.end, Gather::UnfrozenSpace, cx, frozen);
        let sum_grow = self.gather(items, line.start, line.end, Gather::FlexGrow, cx, zero);
        let sum_shrink = self.gather(items, line.start, line.end, Gather::FlexShrink, cx, zero);
        Shares {
            growing,
            free_space: round_free_space(*cx, growing, initial_free_space, used, sum_grow, sum_shrink),
            sum_grow,
            sum_shrink,
            sum_scaled: self.gather(items, line.start, line.end, Gather::ScaledShrink, cx, zero),
        }
    }

    /// The rounds of flexing of one line.
    pub(crate) fn flex_rounds(
        &mut self,
        items: &mut Vec<FlexItem>,
        line: FlexLine,
        cx: &Container,
        growing: bool,
        initial_free_space: Scalar,
    ) -> (r: Result<(), Error>)
        requires
            old(self).wf(),
            old(self).contains(cx.node),
            line.start <= line.end <= old(items)@.len(),
            items_ok(old(self).tree(), cx.node, old(items)@),
        ensures
            final(self).follows(old(self)),
            final(self).only_below(old(self), cx.node),
            final(self).layouts@[cx.node.index as int] == old(self).layouts@[cx.node.index as int],
            same_nodes(old(items)@, final(items)@),
            items_ok(final(self).tree(), cx.node, final(items)@),
            items_agree(
                r,
                model::flex_rounds(
                    old(self).tree(),
                    old(self).state(),
                    old(items)@,
                    line,
                    *cx,
                    growing,
                    initial_free_space,
                ),
                final(self).state(),
                final(items)@,
            ),
        decreases old(self).rank@[cx.node.index as int], 2nat, 0nat,
    {
        let ghost before = *self;
        let ghost start_items = items@;
        let mut count = Self::count_unfrozen(items, line.start, line.end);
        while count > 0
            invariant
                before.wf(),
                *old(self) == before,
                self.follows(&before),
                self.only_below(&before, cx.node),
                self.layouts@[cx.node.index as int] == before.layouts@[cx.node.index as int],
                self.contains(cx.node),
                line.start <= line.end <= items@.len(),
                start_items == old(items)@,
                same_nodes(start_items, items@),
                items_ok(before.tree(), cx.node, items@),
                count == model::count_unfrozen(items@, line.start as int, line.end as int),
                model::flex_rounds(
                    before.tree(),
                    before.state(),
                    start_items,
                    line,
                    *cx,
                    growing,
                    initial_free_space,
                ) == model::flex_rounds(
                    before.tree(),
                    self.state(),
                    items@,
                    line,
                    *cx,
                    growing,
                    initial_free_space,
                ),
            decreases count,
        {
            proof {
                lemma_round_makes_progress(
                    before.tree(),
                    self.state(),
                    items@,
                    line,
                    *cx,
                    growing,
                    initial_free_space,
                );
            }
            let share = self.round_shares(items, line, cx, growing, initial_free_space);
            self.apply_pass(items, Pass::Distribute { share }, cx, line.start, line.end);
            match self.run_pass(items, Pass::Clamp, cx, line.start, line.end) {
                Err(e) => {
                    return Err(e);
                },
                Ok(()) => {},
            }
            let total_violation = self.gather(
                items,
                line.start,
                line.end,
                Gather::Violation,
                cx,
                Scalar::zero(),
            );
            self.apply_pass(items, Pass::Freeze { total_violation }, cx, line.start, line.end);
            count = Self::count_unfrozen(items, line.start, line.end);
        }
        Ok(())
    }

    /// The flexible lengths of one line.
    pub(crate) fn resolve_line(
        &mut self,
        items: &mut Vec<FlexItem>,
        line: FlexLine,
        cx: &Container,
    ) -> (r: Result<(), Error>)
        requires
            old(self).wf(),
            old(self).contains(cx.node),
            line.start <= line.end <= old(items)@.len(),
            items_ok(old(self).tree(), cx.node, old(items)@),
        ensures
            final(self).follows(old(self)),
            final(self).only_below(old(self), cx.node),
            final(self).layouts@[cx.node.index as int] == old(self).layouts@[cx.node.index as int],
            same_nodes(old(items)@, final(items)@),
            items_ok(final(self).tree(), cx.node, final(items)@),
            items_agree(
                r,
                model::resolve_line(old(self).tree(), old(self).state(), old(items)@, line, *cx),
                final(self).state(),
                final(items)@,
            ),
        decreases old(self).rank@[cx.node.index as int], 3nat, 0nat,
    {
        let zero = Scalar::zero();
        let outer = self.gather(items, line.start, line.end, Gather::HypotheticalOuterMain, cx, zero);
        let growing = outer.lt(cx.node_inner_size.main(cx.dir).or_else(zero));
        match self.run_pass(items, Pass::InitialTarget { growing }, cx, line.start, line.end) {
            Err(e) => {
                return Err(e);
            },
            Ok(()) => {},
        }
        let used = self.gather(items, line.start, line.end, Gather::UsedSpace, cx, zero);
        let initial_free_space = cx.node_inner_size.main(cx.dir).sub_scalar(used).or_else(zero);
        self.flex_rounds(items, line, cx, growing, initial_free_space)
    }

    /// The flexible lengths of all lines.
    pub(crate) fn resolve_lines(
        &mut self,
        items: &mut Vec<FlexItem>,
        lines: &Vec<FlexLine>,
        cx: &Container,
    ) -> (r: Result<(), Error>)
        requires
            old(self).wf(),
            old(self).contains(cx.node),
            lines_ok(lines@, old(items)@.len()),
            items_ok(old(self).tree(), cx.node, old(items)@),
        ensures
            final(self).follows(old(self)),
            final(self).only_below(old(self), cx.node),
            final(self).layouts@[cx.node.index as int] == old(self).layouts@[cx.node.index as int],
            same_nodes(old(items)@, final(items)@),
            items_ok(final(self).tree(), cx.node, final(items)@),
            items_agree(
                r,
                model::resolve_lines(old(self).tree(), old(self).state(), old(items)@, lines@, *cx, 0),
                final(self).state(),
                final(items)@,
            ),
        decreases old(self).rank@[cx.node.index as int], 4nat, 0nat,
    {
        let ghost before = *self;
        let ghost start_items = items@;
        let mut li: usize = 0;
        while li < lines.len()
            invariant
                before.wf(),
                *old(self) == before,
                self.follows(&before),
                self.only_below(&before, cx.node),
                self.layouts@[cx.node.index as int] == before.layouts@[cx.node.index as int],
                self.contains(cx.node),
                li <= lines@.len(),
                lines_ok(lines@, items@.len()),
                start_items == old(items)@,
                same_nodes(start_items, items@),
                items_ok(before.tree(), cx.node, items@),
                model::resolve_lines(before.tree(), before.state(), start_items, lines@, *cx, 0)
                    == model::resolve_lines(
                    before.tree(),
                    self.state(),
                    items@,
                    lines@,
                    *cx,
                    li as int,
                ),
            decreases lines.len() - li,
        {
            let line = lines[li];
            match self.resolve_line(items, line, cx) {
                Err(e) => {
                    return Err(e);
                },
                Ok(()) => {},
            }
            li += 1;
        }
        Ok(())
    }

    /// Main sizes of the items and of the container.
    pub(crate) fn main_sizes(
        &mut self,
        cx: &Container,
    ) -> (r: Result<(Vec<FlexItem>, Vec<FlexLine>, Container), Error>)
        requires
            old(self).wf(),
            old(self).contains(cx.node),
        ensures
            final(self).follows(old(self)),
            final(self).only_below(old(self), cx.node),
            final(self).layouts@[cx.node.index as int] == old(self).layouts@[cx.node.index as int],
            match r {
                Ok((items, lines, sized)) => {
                    &&& model::main_sizes(old(self).tree(), old(self).state(), *cx) matches Some(w)
                    &&& w.st == final(self).state()
                    &&& w.items == items@
                    &&& w.lines == lines@
                    &&& w.cx == sized
                    &&& sized.node == cx.node
                    &&& sized.dir == cx.dir
                    &&& sized.node_size == cx.node_size
                    &&& cx.node_size.main(cx.dir) matches Number::Defined(v) ==> sized.container_size.main(
                        cx.dir,
                    ) == v
                    &&& items_ok(final(self).tree(), cx.node, items@)
                    &&& lines_ok(lines@, items@.len())
                    &&& lines@.len() >= 1
                },
                Err(e) => e == Error::Measure && model::main_sizes(
                    old(self).tree(),
                    old(self).state(),
                    *cx,
                ) is None,
            },
        decreases old(self).rank@[cx.node.index as int], 5nat, 0nat,
    {
        let mut items = self.build_items(cx);
        let count = items.len();
        match self.run_pass(&mut items, Pass::FlexBasis, cx, 0, count) {
            Err(e) => {
                return Err(e);
            },
            Ok(()) => {},
        }
        match self.run_pass(&mut items, Pass::HypotheticalMain, cx, 0, count) {
            Err(e) => {
                return Err(e);
            },
            Ok(()) => {},
        }
        let lines = Self::flex_lines(&items, cx);
        match self.resolve_lines(&mut items, &lines, cx) {
            Err(e) => {
                return Err(e);
            },
            Ok(()) => {},
        }
        let longest = self.longest_line(&items, &lines, cx);
        let sized = with_main_size(*cx, longest, lines.len());
        Ok((items, lines, sized))
    }
}

} // verus!
