//! A second layout right after the first.

use crate::algo::same_state;
use crate::flex::{
    container, rounded, spec_cache_hit, spec_container, spec_with_cross_size, spec_with_main_size,
};
use crate::forest::{Forest, MeasureFunc, NodeId};
use crate::geometry::Size;
use crate::model::{
    answers_again, arranged, bounded_call, cross_sizes, kids, last_call, layout_container, layout_leaf,
    layout_node, layout_tree, main_sizes, remembered_size, remembers, root_call, root_layout,
    round_children, round_node, settled, sized_root, sizing_call, unrounded,
};
use crate::number::Number;
use crate::rounding::{calm_node, lemma_rounded_twice};
use crate::scalar::Scalar;
use crate::style::root_size_is_definite;
use vstd::prelude::*;

verus! {

/// A visit of a node with children gives back each definite size of the
/// request.
pub proof fn lemma_definite_request_kept<M: MeasureFunc>(f: &Forest<M>, node: NodeId, call: crate::flex::ChildCall)
    requires
        f.wf(),
        f.contains(node),
        f.children_of(node).len() > 0,
        layout_node(f.tree(), f.state(), node, call) is Some,
    ensures
        ({
            let found = layout_node(f.tree(), f.state(), node, call)->0;
            &&& call.size.width matches Number::Defined(width) ==> found.1.width == width
            &&& call.size.height matches Number::Defined(height) ==> found.1.height == height
        }),
{
    let t = f.tree();
    let st = f.state().cleaned(node);
    reveal(spec_cache_hit);
    match remembered_size(st, node, call) {
        Some(_) => {
            let cache = f.caches@[node.index as int]->0;
            assert(cache.keeps_request());
        },
        None => {
            reveal(spec_container);
            reveal(spec_with_main_size);
            reveal(spec_with_cross_size);
            reveal(arranged);
            let cx = container(node, t.styles[node.index as int], call.size, call.parent);
            assert(kids(t, node).len() > 0);
            assert(layout_node(t, f.state(), node, call) == layout_container(t, st, cx, call));
            let w1 = main_sizes(t, st, cx)->0;
            let w2 = cross_sizes(t, w1)->0;
            assert(w1.cx.node_size == call.size && w1.cx.dir == cx.dir);
            assert(w2.cx.node_size == call.size && w2.cx.dir == cx.dir);
        },
    }
}

/// A second layout of the same root in the same space, with nothing changed
/// in between, leaves every layout as the first layout left it, and asks no
/// measurer. This holds for every root without least or greatest sizes. For
/// a root with such sizes it holds where what the first layout left
/// remembered for the root answers both the sizing and the layout at the
/// size found; where it does not, the root is laid out anew. Rounding is
/// taken to stay clear of the bounds.
pub proof fn lemma_second_layout_changes_nothing<M: MeasureFunc>(
    before: &Forest<M>,
    after: &Forest<M>,
    root: NodeId,
    available: Size<Number>,
)
    requires
        before.wf(),
        after.wf(),
        before.contains(root),
        after.tree() == before.tree(),
        layout_tree(before.tree(), before.state(), root, available) matches Some(st) && same_state(
            st,
            after.state(),
        ),
        settled(before.tree(), before.state(), after.state(), root, available),
        answers_again(after.tree(), after.state(), root, available),
        unrounded(before.tree(), before.state(), root, available) matches Some(placed) && calm_node(
            before.tree(),
            placed.layouts,
            root,
            Scalar::zero(),
            Scalar::zero(),
            Scalar::zero(),
            Scalar::zero(),
        ),
    ensures
        layout_tree(after.tree(), after.state(), root, available) matches Some(again) && again.layouts
            == after.layouts@ && again.caches == after.caches@ && again.calls == after.measure_calls,
{
    let t = before.tree();
    let zero = Scalar::zero();
    let style = before.style_of(root);
    let (first, size) = sized_root(t, before.state(), root, available)->0;
    let origin = root_layout(size);
    let placed = first.placed(root, origin).layouts;
    let once = round_node(t, placed, root, zero, zero);
    assert(after.layouts@ == once);
    assert(placed[root.index as int] == Some(origin));

    // The second run finds the answer of the first, or, where a visit of the
    // root remembers nothing, sizes a leaf in the same way.
    let clean = after.state().cleaned(root);
    assert(clean.cleaned(root) == clean) by {
        assert(clean.dirty.update(root.index as int, false) =~= clean.dirty);
    }
    assert(sized_root(t, after.state(), root, available) == Some((clean, size))) by {
        reveal(sized_root);
        reveal(last_call);
        if style.has_min_max() {
            let sizing = sizing_call(style, available);
            let found = remembered_size(after.state(), root, sizing)->0;
            let last = last_call(t, before.state(), root, available)->0;
            assert(remembers(t, root, last));
            assert(remembered_size(after.state(), root, last) == Some(size));
            assert(found == size);
            assert(remembered_size(clean, root, sizing) == Some(size));
            assert(layout_node(t, after.state(), root, sizing) == Some((clean, size)));
            let bounded = bounded_call(style, available, size);
            assert(remembered_size(clean, root, bounded) == Some(size));
            assert(layout_node(t, clean, root, bounded) == Some((clean, size)));
        } else {
            let call = root_call(style, available);
            assert(last_call(t, before.state(), root, available) == Some(call));
            assert(remembered_size(clean, root, call) == remembered_size(after.state(), root, call));
            if !remembers(t, root, call) {
                let start = before.state().cleaned(root);
                let cx = container(root, t.styles[root.index as int], call.size, call.parent);
                assert(cx.node == root) by {
                    reveal(spec_container);
                }
                assert(kids(t, root).len() == 0);
                assert(layout_node(t, before.state(), root, call) == Some((first, size)));
                assert(layout_node(t, before.state(), root, call) == match remembered_size(
                    start,
                    root,
                    call,
                ) {
                    Some(found) => Some((start, found)),
                    None => layout_leaf(t, start, cx, call),
                });
                assert(layout_leaf(t, start, cx, call) matches Some((s, _)) && s == start);
                assert(layout_node(t, before.state(), root, call) == Some((start, size)));
                assert(first == start);
                assert(clean.caches == start.caches);
                assert(remembered_size(clean, root, call) == remembered_size(start, root, call));
                match remembered_size(start, root, call) {
                    Some(_) => {},
                    None => {
                        assert(layout_leaf(t, start, cx, call) == Some((start, size)));
                        assert(layout_leaf(t, clean, cx, call) == Some((clean, size)));
                    },
                }
            }
            assert(layout_node(t, after.state(), root, call) == Some((clean, size)));
        }
    }
    let replaced = after.layouts@.update(root.index as int, Some(origin));
    assert(unrounded(t, after.state(), root, available) == Some(clean.placed(root, origin)));

    // Rounding what the first run left, with the root put back, gives it again.
    before.lemma_round_self(placed, root, zero, zero);
    before.lemma_round_frame(placed, root, zero, zero);
    lemma_rounded_twice(origin, zero, zero, zero, zero);
    let settled_root = rounded(origin, zero, zero);
    assert(once[root.index as int] == Some(settled_root));
    before.lemma_round_again(placed, root, zero, zero, zero, zero);
    assert(replaced.update(root.index as int, Some(settled_root)) =~= once);
    assert(once.update(root.index as int, Some(rounded(settled_root, zero, zero))) =~= once);
    assert(round_node(t, replaced, root, zero, zero) == round_children(
        t,
        once,
        root,
        0,
        zero.add(origin.location.x),
        zero.add(origin.location.y),
    ));
    assert(round_node(t, once, root, zero, zero) == round_children(
        t,
        once,
        root,
        0,
        zero.add(settled_root.location.x),
        zero.add(settled_root.location.y),
    ));
    assert(settled_root.location.x == zero && settled_root.location.y == zero);
    assert(round_node(t, replaced, root, zero, zero) == once);
}

/// What the layout of a root with children leaves remembered answers a
/// second layout, where the root has least or greatest sizes, its style
/// gives it a definite size on both axes in the space on offer, and that
/// size lies within its bounds.
pub proof fn lemma_definite_root_answers_again<M: MeasureFunc>(
    before: &Forest<M>,
    after: &Forest<M>,
    root: NodeId,
    available: Size<Number>,
)
    requires
        before.wf(),
        after.wf(),
        before.contains(root),
        before.children_of(root).len() > 0,
        after.tree() == before.tree(),
        layout_tree(before.tree(), before.state(), root, available) matches Some(st) && same_state(
            st,
            after.state(),
        ),
        settled(before.tree(), before.state(), after.state(), root, available),
        root_size_is_definite(before.style_of(root), available),
    ensures
        answers_again(after.tree(), after.state(), root, available),
{
    let t = before.tree();
    let style = before.style_of(root);
    if style.has_min_max() {
        reveal(sized_root);
        reveal(last_call);
        reveal(spec_cache_hit);
        reveal(crate::flex::spec_root_size);
        reveal(crate::flex::spec_root_clamped_size);
        let sizing = sizing_call(style, available);
        lemma_definite_request_kept(before, root, sizing);
        let found = layout_node(t, before.state(), root, sizing)->0;
        let last = bounded_call(style, available, found.1);
        assert(last_call(t, before.state(), root, available) == Some(last));
        assert(last.size == sizing.size);
        let laid = sized_root(t, before.state(), root, available)->0;
        let size = laid.1;
        assert(remembered_size(after.state(), root, last) == Some(size));
        let cache = after.caches@[root.index as int]->0;
        assert(cache.keeps_request());
        assert(Size { width: Number::Defined(size.width), height: Number::Defined(size.height) } == sizing.size);
        assert(remembered_size(after.state(), root, sizing) == Some(size));
        assert(bounded_call(style, available, size).size == sizing.size);
    }
}

} // verus!
