//! Rounding a tree of layouts to whole units, and why rounding it again
//! changes nothing.

use crate::flex::{rounded, spec_rounded};
use crate::forest::{Forest, MeasureFunc, NodeId};
use crate::model::{below, kids, round_children, round_node, Tree};
use crate::result::Layout;
use crate::scalar::{lemma_round_near, lemma_round_twice, lemma_whole_sum, Scalar};
use vstd::prelude::*;

verus! {

impl Layout {
    /// Whether position and size are of moderate magnitude.
    pub open spec fn is_moderate(self) -> bool {
        &&& self.location.x.is_moderate()
        &&& self.location.y.is_moderate()
        &&& self.size.width.is_moderate()
        &&& self.size.height.is_moderate()
    }
}

/// Rounding a rounded layout again, at an offset of whole units, changes
/// nothing, as long as all values are of moderate magnitude.
pub proof fn lemma_rounded_twice(l: Layout, ax: Scalar, ay: Scalar, bx: Scalar, by: Scalar)
    requires
        l.is_moderate(),
        ax.is_moderate(),
        ay.is_moderate(),
        bx.is_moderate(),
        by.is_moderate(),
        bx.is_whole(),
        by.is_whole(),
    ensures
        rounded(rounded(l, ax, ay), bx, by) == rounded(l, ax, ay),
        rounded(l, ax, ay).location.x == l.location.x.round(),
        rounded(l, ax, ay).location.y == l.location.y.round(),
{
    reveal(spec_rounded);
    lemma_axis_twice(l.location.x, l.size.width, ax, bx);
    lemma_axis_twice(l.location.y, l.size.height, ay, by);
}

/// Rounding leaves a layout at the origin at the origin, and keeps its place
/// among its siblings.
pub proof fn lemma_rounded_keeps_origin(l: Layout, ax: Scalar, ay: Scalar)
    requires
        l.location.x.raw == 0,
        l.location.y.raw == 0,
    ensures
        rounded(l, ax, ay).location == l.location,
        rounded(l, ax, ay).order == l.order,
{
    reveal(spec_rounded);
    assert(crate::scalar::UNIT == 1_000_000 && crate::scalar::HALF_UNIT == 500_000);
}

/// One axis of [`lemma_rounded_twice`]: for a position `p` and an extent `e`
/// rounded at offset `a`, rounding the results at the whole offset `b` gives
/// them back.
proof fn lemma_axis_twice(p: Scalar, e: Scalar, a: Scalar, b: Scalar)
    requires
        p.is_moderate(),
        e.is_moderate(),
        a.is_moderate(),
        b.is_moderate(),
        b.is_whole(),
    ensures
        ({
            let near = a.add(p);
            let extent = near.add(e).round().sub(near.round());
            let again = b.add(p.round());
            &&& p.round().round() == p.round()
            &&& again.add(extent).round().sub(again.round()) == extent
        }),
{
    let near = a.add(p);
    let extent = near.add(e).round().sub(near.round());
    lemma_extent_whole(near, e);
    lemma_round_twice(p);
    lemma_round_near(p);
    let again = b.add(p.round());
    lemma_whole_sum(b, p.round());
    lemma_whole_round_trip(again, extent);
}

/// The rounded extent between a near edge and the far edge `e` further is a
/// whole number at most one unit away from `e`.
proof fn lemma_extent_whole(near: Scalar, e: Scalar)
    requires
        -0x2000_0000_0000_0000 <= near.raw <= 0x2000_0000_0000_0000,
        e.is_moderate(),
    ensures
        near.add(e).round().sub(near.round()).is_whole(),
        e.raw - 1_000_000 <= near.add(e).round().sub(near.round()).raw <= e.raw + 1_000_000,
{
    let far = near.add(e);
    assert(far.raw == near.raw + e.raw);
    lemma_round_far(far);
    lemma_round_far(near);
    lemma_whole_sum(far.round(), near.round());
}

/// For whole numbers `a` and `e` well within the bounds, the rounded extent
/// between `a` and `a + e` is `e`.
proof fn lemma_whole_round_trip(a: Scalar, e: Scalar)
    requires
        a.is_whole(),
        e.is_whole(),
        -0x3000_0000_0000_0000 <= a.raw <= 0x3000_0000_0000_0000,
        -0x3000_0000_0000_0000 <= e.raw <= 0x3000_0000_0000_0000,
    ensures
        a.add(e).round().sub(a.round()) == e,
{
    lemma_whole_sum(a, e);
    let sum = a.add(e);
    lemma_round_far(sum);
    lemma_round_far(a);
    assert(sum.round() == sum);
    assert(a.round() == a);
    assert(sum.raw - a.raw == e.raw);
}

/// Rounding keeps values well within the bounds within half a unit, and
/// leaves whole ones as they are.
proof fn lemma_round_far(a: Scalar)
    requires
        -0x7000_0000_0000_0000 <= a.raw <= 0x7000_0000_0000_0000,
    ensures
        a.round().is_whole(),
        a.raw - 500_000 <= a.round().raw <= a.raw + 500_000,
        a.is_whole() ==> a.round() == a,
{
    assert(crate::scalar::UNIT == 1_000_000 && crate::scalar::HALF_UNIT == 500_000);
}

/// Whether none of the children of `node` from the `i`-th on is `m` or above it.
pub open spec fn clear_of_children<M: MeasureFunc>(
    f: &Forest<M>,
    node: NodeId,
    i: int,
    m: NodeId,
) -> bool {
    forall|j: int|
        i <= j < f.children_of(node).len() ==> !f.is_ancestor_or_self(#[trigger] f.children_of(node)[j], m)
}

/// Whether two maps of layouts hold the same for `node` and all nodes below it.
pub open spec fn agree_below<M: MeasureFunc>(
    f: &Forest<M>,
    a: Seq<Option<Layout>>,
    b: Seq<Option<Layout>>,
    node: NodeId,
) -> bool {
    forall|m: NodeId|
        f.contains(m) && f.is_ancestor_or_self(node, m) ==> #[trigger] a[m.index as int] == b[m.index as int]
}

impl<M: MeasureFunc> Forest<M> {
    /// Rounding below `node` keeps the number of layouts and changes no layout
    /// of a node that is not `node` or below it.
    pub proof fn lemma_round_frame(
        &self,
        layouts: Seq<Option<Layout>>,
        node: NodeId,
        x: Scalar,
        y: Scalar,
    )
        requires
            self.wf(),
            self.contains(node),
            layouts.len() == self.len(),
        ensures
            round_node(self.tree(), layouts, node, x, y).len() == layouts.len(),
            forall|m: NodeId|
                self.contains(m) && !self.is_ancestor_or_self(node, m) ==> #[trigger] round_node(
                    self.tree(),
                    layouts,
                    node,
                    x,
                    y,
                )[m.index as int] == layouts[m.index as int],
        decreases self.rank@[node.index as int], 1nat, 0nat,
    {
        let t = self.tree();
        let (first, cx, cy) = match layouts[node.index as int] {
            Some(layout) => (
                layouts.update(node.index as int, Some(rounded(layout, x, y))),
                x.add(layout.location.x),
                y.add(layout.location.y),
            ),
            None => (layouts, x, y),
        };
        assert(round_node(t, layouts, node, x, y) == round_children(t, first, node, 0, cx, cy));
        self.lemma_round_children_frame(first, node, 0, cx, cy);
        assert forall|m: NodeId| self.contains(m) && !self.is_ancestor_or_self(node, m) implies #[trigger] round_node(
            t,
            layouts,
            node,
            x,
            y,
        )[m.index as int] == layouts[m.index as int] by {
            assert forall|j: int| 0 <= j < self.children_of(node).len() implies !self.is_ancestor_or_self(
                #[trigger] self.children_of(node)[j],
                m,
            ) by {
                if self.is_ancestor_or_self(self.children_of(node)[j], m) {
                    self.lemma_below_child_is_below(node, j, m);
                }
            }
            assert(clear_of_children(self, node, 0, m));
        }
    }

    /// Rounding below the children of `node` from the `i`-th on keeps the
    /// number of layouts and changes no layout of a node that is not one of
    /// these children or below one.
    pub proof fn lemma_round_children_frame(
        &self,
        layouts: Seq<Option<Layout>>,
        node: NodeId,
        i: int,
        x: Scalar,
        y: Scalar,
    )
        requires
            self.wf(),
            self.contains(node),
            layouts.len() == self.len(),
            0 <= i <= self.children_of(node).len(),
        ensures
            round_children(self.tree(), layouts, node, i, x, y).len() == layouts.len(),
            forall|m: NodeId|
                self.contains(m) && clear_of_children(self, node, i, m) ==> #[trigger] round_children(
                    self.tree(),
                    layouts,
                    node,
                    i,
                    x,
                    y,
                )[m.index as int] == layouts[m.index as int],
        decreases self.rank@[node.index as int], 0nat, self.children_of(node).len() - i,
    {
        let t = self.tree();
        if i < self.children_of(node).len() {
            let child = self.children_of(node)[i];
            self.lemma_children_below(node);
            assert(below(t, node, child));
            let next = round_node(t, layouts, child, x, y);
            self.lemma_round_frame(layouts, child, x, y);
            self.lemma_round_children_frame(next, node, i + 1, x, y);
            assert(round_children(t, layouts, node, i, x, y) == round_children(t, next, node, i + 1, x, y));
            assert forall|m: NodeId| self.contains(m) && clear_of_children(self, node, i, m) implies #[trigger] round_children(
                t,
                layouts,
                node,
                i,
                x,
                y,
            )[m.index as int] == layouts[m.index as int] by {
                assert(!self.is_ancestor_or_self(self.children_of(node)[i], m));
                assert(clear_of_children(self, node, i + 1, m));
                assert(next[m.index as int] == layouts[m.index as int]);
            }
        }
    }

    /// The layout that rounding below `node` leaves for `node` itself.
    pub proof fn lemma_round_self(
        &self,
        layouts: Seq<Option<Layout>>,
        node: NodeId,
        x: Scalar,
        y: Scalar,
    )
        requires
            self.wf(),
            self.contains(node),
            layouts.len() == self.len(),
        ensures
            round_node(self.tree(), layouts, node, x, y)[node.index as int] == match layouts[node.index as int] {
                Some(layout) => Some(rounded(layout, x, y)),
                None => None,
            },
    {
        let t = self.tree();
        let (first, cx, cy) = match layouts[node.index as int] {
            Some(layout) => (
                layouts.update(node.index as int, Some(rounded(layout, x, y))),
                x.add(layout.location.x),
                y.add(layout.location.y),
            ),
            None => (layouts, x, y),
        };
        assert(round_node(t, layouts, node, x, y) == round_children(t, first, node, 0, cx, cy));
        self.lemma_round_children_frame(first, node, 0, cx, cy);
        self.lemma_children_below(node);
        assert(clear_of_children(self, node, 0, node));
    }

    /// What rounding below `node` leaves for `node` and the nodes below it
    /// depends only on the layouts of these nodes.
    pub proof fn lemma_round_local(
        &self,
        a: Seq<Option<Layout>>,
        b: Seq<Option<Layout>>,
        node: NodeId,
        x: Scalar,
        y: Scalar,
    )
        requires
            self.wf(),
            self.contains(node),
            a.len() == self.len(),
            b.len() == self.len(),
            agree_below(self, a, b, node),
        ensures
            agree_below(
                self,
                round_node(self.tree(), a, node, x, y),
                round_node(self.tree(), b, node, x, y),
                node,
            ),
        decreases self.rank@[node.index as int], 1nat, 0nat,
    {
        let t = self.tree();
        assert(a[node.index as int] == b[node.index as int]);
        let (fa, fb, cx, cy) = match a[node.index as int] {
            Some(layout) => (
                a.update(node.index as int, Some(rounded(layout, x, y))),
                b.update(node.index as int, Some(rounded(layout, x, y))),
                x.add(layout.location.x),
                y.add(layout.location.y),
            ),
            None => (a, b, x, y),
        };
        assert(round_node(t, a, node, x, y) == round_children(t, fa, node, 0, cx, cy));
        assert(round_node(t, b, node, x, y) == round_children(t, fb, node, 0, cx, cy));
        assert(agree_below(self, fa, fb, node)) by {
            assert forall|m: NodeId| self.contains(m) && self.is_ancestor_or_self(node, m) implies #[trigger] fa[m.index as int]
                == fb[m.index as int] by {
                assert(a[m.index as int] == b[m.index as int]);
            }
        }
        self.lemma_round_children_local(fa, fb, node, 0, cx, cy);
    }

    /// What rounding below the children of `node` from the `i`-th on leaves
    /// for the nodes at and below `node` depends only on the layouts of these
    /// nodes.
    pub proof fn lemma_round_children_local(
        &self,
        a: Seq<Option<Layout>>,
        b: Seq<Option<Layout>>,
        node: NodeId,
        i: int,
        x: Scalar,
        y: Scalar,
    )
        requires
            self.wf(),
            self.contains(node),
            a.len() == self.len(),
            b.len() == self.len(),
            0 <= i <= self.children_of(node).len(),
            agree_below(self, a, b, node),
        ensures
            agree_below(
                self,
                round_children(self.tree(), a, node, i, x, y),
                round_children(self.tree(), b, node, i, x, y),
                node,
            ),
        decreases self.rank@[node.index as int], 0nat, self.children_of(node).len() - i,
    {
        let t = self.tree();
        if i < self.children_of(node).len() {
            let child = self.children_of(node)[i];
            self.lemma_children_below(node);
            assert(below(t, node, child));
            let na = round_node(t, a, child, x, y);
            let nb = round_node(t, b, child, x, y);
            self.lemma_round_frame(a, child, x, y);
            self.lemma_round_frame(b, child, x, y);
            assert(agree_below(self, a, b, child)) by {
                assert forall|m: NodeId| self.contains(m) && self.is_ancestor_or_self(child, m) implies #[trigger] a[m.index as int]
                    == b[m.index as int] by {
                    self.lemma_below_child_is_below(node, i, m);
                }
            }
            self.lemma_round_local(a, b, child, x, y);
            assert(agree_below(self, na, nb, node)) by {
                assert forall|m: NodeId| self.contains(m) && self.is_ancestor_or_self(node, m) implies #[trigger] na[m.index as int]
                    == nb[m.index as int] by {
                    if !self.is_ancestor_or_self(child, m) {
                        assert(a[m.index as int] == b[m.index as int]);
                    }
                }
            }
            self.lemma_round_children_local(na, nb, node, i + 1, x, y);
            assert(round_children(t, a, node, i, x, y) == round_children(t, na, node, i + 1, x, y));
            assert(round_children(t, b, node, i, x, y) == round_children(t, nb, node, i + 1, x, y));
        }
    }

    /// What rounding below the children of `node` from the `i`-th on leaves
    /// at and below the `k`-th child is what rounding below that child alone
    /// leaves there.
    pub proof fn lemma_round_child_part(
        &self,
        layouts: Seq<Option<Layout>>,
        node: NodeId,
        i: int,
        k: int,
        x: Scalar,
        y: Scalar,
    )
        requires
            self.wf(),
            self.contains(node),
            layouts.len() == self.len(),
            0 <= i <= k < self.children_of(node).len(),
        ensures
            agree_below(
                self,
                round_children(self.tree(), layouts, node, i, x, y),
                round_node(self.tree(), layouts, self.children_of(node)[k], x, y),
                self.children_of(node)[k],
            ),
        decreases k - i,
    {
        let t = self.tree();
        let target = self.children_of(node)[k];
        let child = self.children_of(node)[i];
        self.lemma_children_below(node);
        assert(below(t, node, child));
        let next = round_node(t, layouts, child, x, y);
        self.lemma_round_frame(layouts, child, x, y);
        assert(round_children(t, layouts, node, i, x, y) == round_children(t, next, node, i + 1, x, y));
        if i == k {
            self.lemma_round_children_frame(next, node, i + 1, x, y);
            assert forall|m: NodeId| self.contains(m) && self.is_ancestor_or_self(target, m) implies #[trigger] round_children(
                t,
                layouts,
                node,
                i,
                x,
                y,
            )[m.index as int] == next[m.index as int] by {
                assert forall|j: int| i + 1 <= j < self.children_of(node).len() implies !self.is_ancestor_or_self(
                    #[trigger] self.children_of(node)[j],
                    m,
                ) by {
                    self.lemma_children_disjoint(node, j, k, m);
                }
                assert(clear_of_children(self, node, i + 1, m));
            }
        } else {
            self.lemma_round_child_part(next, node, i + 1, k, x, y);
            assert(agree_below(self, next, layouts, target)) by {
                assert forall|m: NodeId| self.contains(m) && self.is_ancestor_or_self(target, m) implies #[trigger] next[m.index as int]
                    == layouts[m.index as int] by {
                    self.lemma_children_disjoint(node, i, k, m);
                }
            }
            self.lemma_round_local(next, layouts, target, x, y);
            assert forall|m: NodeId| self.contains(m) && self.is_ancestor_or_self(target, m) implies #[trigger] round_children(
                t,
                layouts,
                node,
                i,
                x,
                y,
            )[m.index as int] == round_node(t, layouts, target, x, y)[m.index as int] by {
                assert(round_children(t, next, node, i + 1, x, y)[m.index as int] == round_node(
                    t,
                    next,
                    target,
                    x,
                    y,
                )[m.index as int]);
                assert(round_node(t, next, target, x, y)[m.index as int] == round_node(
                    t,
                    layouts,
                    target,
                    x,
                    y,
                )[m.index as int]);
            }
        }
    }

    /// Where rounding below the children of `node` from the `i`-th on stays
    /// clear of the bounds, so does rounding below the `k`-th child.
    pub proof fn lemma_calm_child(
        &self,
        layouts: Seq<Option<Layout>>,
        node: NodeId,
        i: int,
        k: int,
        x: Scalar,
        y: Scalar,
        bx: Scalar,
        by: Scalar,
    )
        requires
            self.wf(),
            self.contains(node),
            0 <= i <= k < self.children_of(node).len(),
            calm_children(self.tree(), layouts, node, i, x, y, bx, by),
        ensures
            calm_node(self.tree(), layouts, self.children_of(node)[k], x, y, bx, by),
        decreases k - i,
    {
        self.lemma_children_below(node);
        assert(below(self.tree(), node, self.children_of(node)[i]));
        if i < k {
            self.lemma_calm_child(layouts, node, i + 1, k, x, y, bx, by);
        }
    }

    /// Rounding the layouts below `node` a second time, at an offset of whole
    /// units, changes nothing, as long as rounding stays clear of the bounds.
    pub proof fn lemma_round_again(
        &self,
        layouts: Seq<Option<Layout>>,
        node: NodeId,
        x: Scalar,
        y: Scalar,
        bx: Scalar,
        by: Scalar,
    )
        requires
            self.wf(),
            self.contains(node),
            layouts.len() == self.len(),
            bx.is_whole(),
            by.is_whole(),
            calm_node(self.tree(), layouts, node, x, y, bx, by),
        ensures
            round_node(self.tree(), round_node(self.tree(), layouts, node, x, y), node, bx, by) == round_node(
                self.tree(),
                layouts,
                node,
                x,
                y,
            ),
        decreases self.rank@[node.index as int],
    {
        let t = self.tree();
        let once = round_node(t, layouts, node, x, y);
        let twice = round_node(t, once, node, bx, by);
        self.lemma_round_frame(layouts, node, x, y);
        self.lemma_round_frame(once, node, bx, by);
        self.lemma_round_self(layouts, node, x, y);
        self.lemma_round_self(once, node, bx, by);
        let (first, cx, cy, dx, dy) = match layouts[node.index as int] {
            Some(layout) => (
                layouts.update(node.index as int, Some(rounded(layout, x, y))),
                x.add(layout.location.x),
                y.add(layout.location.y),
                bx.add(layout.location.x.round()),
                by.add(layout.location.y.round()),
            ),
            None => (layouts, x, y, bx, by),
        };
        let second = match once[node.index as int] {
            Some(layout) => once.update(node.index as int, Some(rounded(layout, bx, by))),
            None => once,
        };
        if layouts[node.index as int] is Some {
            let layout = layouts[node.index as int]->0;
            lemma_rounded_twice(layout, x, y, bx, by);
            lemma_round_near(layout.location.x);
            lemma_round_near(layout.location.y);
            lemma_whole_sum(bx, layout.location.x.round());
            lemma_whole_sum(by, layout.location.y.round());
        }
        assert(once == round_children(t, first, node, 0, cx, cy));
        assert(twice == round_children(t, second, node, 0, dx, dy));
        assert(calm_children(t, layouts, node, 0, cx, cy, dx, dy));
        assert(dx.is_whole() && dy.is_whole());
        assert(self.styles.len() == self.styles@.len());
        assert forall|i: int| 0 <= i < once.len() implies #[trigger] twice[i] == once[i] by {
            let m = NodeId { index: i as usize };
            assert(m.index as int == i);
            if !self.is_ancestor_or_self(node, m) {
                assert(twice[m.index as int] == once[m.index as int]);
            } else if m == node {
                assert(twice[m.index as int] == once[m.index as int]);
            } else {
                let k = self.lemma_below_some_child(node, m);
                let child = self.children_of(node)[k];
                self.lemma_children_below(node);
                let part = round_node(t, layouts, child, cx, cy);
                self.lemma_round_frame(layouts, child, cx, cy);
                // The first pass leaves below the child what rounding below it alone leaves.
                self.lemma_round_child_part(first, node, 0, k, cx, cy);
                assert(agree_below(self, first, layouts, child)) by {
                    assert forall|n: NodeId| self.contains(n) && self.is_ancestor_or_self(child, n) implies #[trigger] first[n.index as int]
                        == layouts[n.index as int] by {
                        self.lemma_below_child_is_below(node, k, n);
                    }
                }
                self.lemma_round_local(first, layouts, child, cx, cy);
                assert(once[m.index as int] == part[m.index as int]) by {
                    assert(round_node(t, first, child, cx, cy)[m.index as int] == part[m.index as int]);
                }
                // So does the second pass, of what the first pass left.
                self.lemma_round_child_part(second, node, 0, k, dx, dy);
                assert(agree_below(self, second, part, child)) by {
                    assert forall|n: NodeId| self.contains(n) && self.is_ancestor_or_self(child, n) implies #[trigger] second[n.index as int]
                        == part[n.index as int] by {
                        self.lemma_below_child_is_below(node, k, n);
                        assert(second[n.index as int] == once[n.index as int]);
                        assert(round_children(t, first, node, 0, cx, cy)[n.index as int] == round_node(
                            t,
                            first,
                            child,
                            cx,
                            cy,
                        )[n.index as int]);
                        assert(round_node(t, first, child, cx, cy)[n.index as int] == part[n.index as int]);
                    }
                }
                self.lemma_round_local(second, part, child, dx, dy);
                self.lemma_calm_child(layouts, node, 0, k, cx, cy, dx, dy);
                self.lemma_round_again(layouts, child, cx, cy, dx, dy);
                assert(twice[m.index as int] == round_node(t, second, child, dx, dy)[m.index as int]);
                assert(round_node(t, second, child, dx, dy)[m.index as int] == round_node(
                    t,
                    part,
                    child,
                    dx,
                    dy,
                )[m.index as int]);
            }
        }
        assert(twice =~= once);
    }
}

/// Whether rounding below `node`, first at the offset (`x`, `y`) and then
/// again at (`bx`, `by`), stays clear of the bounds: every offset and every
/// layout on the way is of moderate magnitude.
pub open spec fn calm_node<M: MeasureFunc>(
    t: Tree<M>,
    layouts: Seq<Option<Layout>>,
    node: NodeId,
    x: Scalar,
    y: Scalar,
    bx: Scalar,
    by: Scalar,
) -> bool
    decreases t.rank[node.index as int], 1nat, 0nat,
{
    &&& x.is_moderate()
    &&& y.is_moderate()
    &&& bx.is_moderate()
    &&& by.is_moderate()
    &&& match layouts[node.index as int] {
        Some(layout) => layout.is_moderate() && calm_children(
            t,
            layouts,
            node,
            0,
            x.add(layout.location.x),
            y.add(layout.location.y),
            bx.add(layout.location.x.round()),
            by.add(layout.location.y.round()),
        ),
        None => calm_children(t, layouts, node, 0, x, y, bx, by),
    }
}

/// [`calm_node`] for the children of `node` from the `i`-th on.
pub open spec fn calm_children<M: MeasureFunc>(
    t: Tree<M>,
    layouts: Seq<Option<Layout>>,
    node: NodeId,
    i: int,
    x: Scalar,
    y: Scalar,
    bx: Scalar,
    by: Scalar,
) -> bool
    decreases t.rank[node.index as int], 0nat, kids(t, node).len() - i,
{
    if i < 0 || i >= kids(t, node).len() {
        true
    } else if below(t, node, kids(t, node)[i]) {
        calm_node(t, layouts, kids(t, node)[i], x, y, bx, by) && calm_children(
            t,
            layouts,
            node,
            i + 1,
            x,
            y,
            bx,
            by,
        )
    } else {
        true
    }
}

} // verus!
