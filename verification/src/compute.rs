//! The entry point of layout: the root is sized and laid out, placed at the
//! origin, and every layout below it is rounded to whole units.

use crate::algo::{same_state, state_agrees};
use crate::flex::{root_clamped_size, root_size, rounded, ChildCall};
use crate::forest::{Error, Forest, MeasureFunc, NodeId};
use crate::geometry::{Point, Size};
use crate::model;
use crate::model::kids;
use crate::number::Number;
use crate::result::Layout;
use crate::rounding::lemma_rounded_keeps_origin;
use crate::scalar::Scalar;
use vstd::prelude::*;

verus! {

/// A copy of a vector of plain values.
pub(crate) fn copy_of<T: Copy>(v: &Vec<T>) -> (r: Vec<T>)
    ensures
        r@ == v@,
{
    let mut r: Vec<T> = Vec::new();
    let mut i: usize = 0;
    while i < v.len()
        invariant
            i <= v@.len(),
            r@ == v@.subrange(0, i as int),
        decreases v.len() - i,
    {
        r.push(v[i]);
        assert(v@.subrange(0, i as int).push(v@[i as int]) =~= v@.subrange(0, i as int + 1));
        i += 1;
    }
    assert(v@.subrange(0, i as int) =~= v@);
    r
}

impl<M: MeasureFunc> Forest<M> {
    /// Whether `root` has a layout that lies at the origin, first among its
    /// siblings.
    pub open spec fn at_origin(&self, root: NodeId) -> bool {
        self.layouts@[root.index as int] matches Some(layout) && layout.order == 0 && layout.location
            == Point::<Scalar>::zero()
    }

    /// Rounds the layouts of `node` and of all nodes below it to whole units,
    /// `node` lying at (`abs_x`, `abs_y`) from the root's origin.
    pub fn round_layout(&mut self, node: NodeId, abs_x: Scalar, abs_y: Scalar)
        requires
            old(self).wf(),
            old(self).contains(node),
        ensures
            final(self).follows(old(self)),
            final(self).only_below(old(self), node),
            final(self).layouts@ == model::round_node(
                old(self).tree(),
                old(self).layouts@,
                node,
                abs_x,
                abs_y,
            ),
            final(self).dirty == old(self).dirty,
            final(self).caches == old(self).caches,
            final(self).measure_calls == old(self).measure_calls,
        decreases old(self).rank@[node.index as int],
    {
        let ghost before = *self;
        let (x, y) = match self.layouts[node.index] {
            Some(layout) => {
                self.layouts[node.index] = Some(rounded(layout, abs_x, abs_y));
                (abs_x.add(layout.location.x), abs_y.add(layout.location.y))
            },
            None => (abs_x, abs_y),
        };
        let ghost first = self.layouts@;
        let count = self.children[node.index].len();
        let mut i: usize = 0;
        while i < count
            invariant
                before.wf(),
                before.contains(node),
                *old(self) == before,
                self.follows(&before),
                self.only_below(&before, node),
                self.dirty == before.dirty,
                self.caches == before.caches,
                self.measure_calls == before.measure_calls,
                count == kids(before.tree(), node).len(),
                i <= count,
                model::round_children(before.tree(), first, node, 0, x, y) == model::round_children(
                    before.tree(),
                    self.layouts@,
                    node,
                    i as int,
                    x,
                    y,
                ),
            decreases count - i,
        {
            let child = self.children[node.index][i];
            proof {
                self.lemma_children_below(node);
                assert(self.children_of(node)[i as int] == child);
            }
            let ghost mid = *self;
            self.round_layout(child, x, y);
            proof {
                self.lemma_only_below_child(&mid, node, child);
            }
            i += 1;
        }
    }

    /// Lays out the tree under `root` in the space `available`.
    pub(crate) fn compute(
        &mut self,
        root: NodeId,
        available: Size<Number>,
    ) -> (r: Result<(), Error>)
        requires
            old(self).wf(),
            old(self).contains(root),
        ensures
            final(self).follows(old(self)),
            final(self).only_below(old(self), root),
            state_agrees(
                r,
                model::layout_tree(old(self).tree(), old(self).state(), root, available),
                final(self).state(),
            ),
            r is Ok ==> model::settled(
                old(self).tree(),
                old(self).state(),
                final(self).state(),
                root,
                available,
            ),
            r is Err ==> final(self).layouts@[root.index as int] == old(self).layouts@[root.index as int],
            r is Ok ==> final(self).at_origin(root),
    {
        proof {
            reveal(model::sized_root);
            reveal(model::last_call);
        }
        let style = self.styles[root.index];
        let direct = ChildCall { size: root_size(style, available), parent: available, perform_layout: true };
        let size = if style.has_min_max() {
            let first = match self.compute_internal(root, ChildCall { perform_layout: false, ..direct }) {
                Err(e) => {
                    return Err(e);
                },
                Ok(first) => first,
            };
            match self.compute_internal(
                root,
                ChildCall { size: root_clamped_size(style, available, first), ..direct },
            ) {
                Err(e) => {
                    return Err(e);
                },
                Ok(size) => size,
            }
        } else {
            match self.compute_internal(root, direct) {
                Err(e) => {
                    return Err(e);
                },
                Ok(size) => size,
            }
        };
        proof {
            let found = model::sized_root(old(self).tree(), old(self).state(), root, available);
            assert(found matches Some((st, s)) && s == size && same_state(st, self.state()));
        }
        self.layouts[root.index] = Some(Layout { order: 0, size, location: Point::<Scalar>::zero() });
        let ghost placed = *self;
        self.round_layout(root, Scalar::zero(), Scalar::zero());
        proof {
            placed.lemma_round_self(placed.layouts@, root, Scalar::zero(), Scalar::zero());
            lemma_rounded_keeps_origin(
                Layout { order: 0, size, location: Point::<Scalar>::zero() },
                Scalar::zero(),
                Scalar::zero(),
            );
        }
        Ok(())
    }

    /// Computes the layout of the tree under `root` in the space `available`.
    /// When a measurer fails, nothing of the forest has changed.
    pub fn compute_layout(
        &mut self,
        root: NodeId,
        available: Size<Number>,
    ) -> (r: Result<(), Error>)
        requires
            old(self).wf(),
        ensures
            final(self).wf(),
            final(self).same_links(old(self)),
            final(self).styles == old(self).styles,
            final(self).measures == old(self).measures,
            !old(self).is_node(root) ==> r == Err::<(), Error>(Error::InvalidNode(root)) && *final(self)
                == *old(self),
            old(self).is_node(root) && r is Ok ==> final(self).only_below(old(self), root),
            old(self).is_node(root) && r is Ok ==> final(self).at_origin(root),
            old(self).is_node(root) && r is Ok ==> model::settled(
                old(self).tree(),
                old(self).state(),
                final(self).state(),
                root,
                available,
            ),
            old(self).is_node(root) ==> match model::layout_tree(
                old(self).tree(),
                old(self).state(),
                root,
                available,
            ) {
                Some(st) => r is Ok && same_state(st, final(self).state()),
                None => r == Err::<(), Error>(Error::Measure) && same_state(
                    old(self).state(),
                    final(self).state(),
                ),
            },
    {
        if root.index >= self.styles.len() || !self.alive[root.index] {
            return Err(Error::InvalidNode(root));
        }
        let dirty = copy_of(&self.dirty);
        let layouts = copy_of(&self.layouts);
        let caches = copy_of(&self.caches);
        let calls = self.measure_calls;
        match self.compute(root, available) {
            Ok(()) => Ok(()),
            Err(e) => {
                self.dirty = dirty;
                self.layouts = layouts;
                self.caches = caches;
                self.measure_calls = calls;
                Err(e)
            },
        }
    }
}

} // verus!
