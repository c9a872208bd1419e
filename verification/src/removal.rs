//! Removal of a node with everything below it.

use crate::compute::copy_of;
use crate::forest::{links_ok, Error, Forest, MeasureFunc, NodeId};
use crate::links::set_parents;
use vstd::prelude::*;

verus! {

/// Whether `a` is one of the first `i` children of `node`, or lies below one.
pub open spec fn under_first<M: MeasureFunc>(f: &Forest<M>, node: NodeId, i: int, a: NodeId) -> bool {
    exists|j: int| 0 <= j < i && f.is_ancestor_or_self(#[trigger] f.children_of(node)[j], a)
}

impl<M: MeasureFunc> Forest<M> {
    /// Everything but links and life is as in `before`.
    pub open spec fn same_content(&self, before: &Self) -> bool {
        &&& self.styles == before.styles
        &&& self.measures == before.measures
        &&& self.layouts == before.layouts
        &&& self.measure_calls == before.measure_calls
        &&& self.parents@.len() == before.parents@.len()
        &&& self.children@.len() == before.children@.len()
        &&& self.alive@.len() == before.alive@.len()
    }

    /// Against `before`, exactly `node` and the nodes below it are gone: they
    /// are no nodes of the forest any more and have lost their links. The
    /// parent of `node`, if it had one, has lost this child. Every other link
    /// is as it was.
    pub open spec fn pruned(&self, before: &Self, node: NodeId) -> bool {
        &&& forall|a: NodeId|
            before.contains(a) ==> #[trigger] self.alive@[a.index as int] == (before.alive@[a.index as int]
                && !before.is_ancestor_or_self(node, a))
        &&& forall|a: NodeId|
            before.contains(a) ==> #[trigger] self.parents@[a.index as int] == if before.is_ancestor_or_self(
                node,
                a,
            ) {
                None
            } else {
                before.parents@[a.index as int]
            }
        &&& forall|a: NodeId|
            before.contains(a) ==> #[trigger] self.children@[a.index as int]@ == if before.is_ancestor_or_self(
                node,
                a,
            ) {
                Seq::empty()
            } else if before.parent_of(node) == Some(a) {
                before.children_of(a).remove(before.children_of(a).index_of(node))
            } else {
                before.children_of(a)
            }
    }

    /// Following parents in a forest where some nodes have lost theirs leads
    /// to no node that was not above before.
    pub proof fn lemma_chain_shortened(&self, before: &Self, k: NodeId, a: NodeId)
        requires
            before.wf(),
            self.wf(),
            self.len() == before.len(),
            self.contains(a),
            forall|x: NodeId|
                self.contains(x) ==> #[trigger] self.parents@[x.index as int] == before.parents@[x.index as int]
                    || self.parents@[x.index as int] is None,
            self.is_ancestor_or_self(k, a),
        ensures
            before.is_ancestor_or_self(k, a),
        decreases self.rank_bound@ - self.rank@[a.index as int],
    {
        self.lemma_ancestor_unfold(k, a);
        before.lemma_ancestor_unfold(k, a);
        if k != a {
            let p = self.parent_of(a)->0;
            self.lemma_parent_ranked(a);
            assert(self.parents@[a.index as int] == before.parents@[a.index as int]);
            self.lemma_chain_shortened(before, k, p);
        }
    }

    /// Following parents leads from a node below `k` up to `k` as before,
    /// where no node below `k` has changed its parent.
    pub proof fn lemma_chain_kept(&self, before: &Self, k: NodeId, a: NodeId)
        requires
            before.wf(),
            self.wf(),
            self.len() == before.len(),
            before.contains(a),
            forall|x: NodeId|
                before.contains(x) && before.is_ancestor_or_self(k, x) && x != k ==> #[trigger] self.parents@[x.index as int]
                    == before.parents@[x.index as int],
            before.is_ancestor_or_self(k, a),
        ensures
            self.is_ancestor_or_self(k, a),
        decreases before.rank_bound@ - before.rank@[a.index as int],
    {
        self.lemma_ancestor_unfold(k, a);
        before.lemma_ancestor_unfold(k, a);
        if k != a {
            let p = before.parent_of(a)->0;
            before.lemma_parent_ranked(a);
            assert(self.parents@[a.index as int] == before.parents@[a.index as int]);
            self.lemma_chain_kept(before, k, p);
        }
    }

    /// Taking links away keeps the links consistent: every child has lost
    /// its parent exactly where the parent has lost the child.
    pub proof fn lemma_fewer_links(&self, before: &Self)
        requires
            before.wf(),
            self.len() == before.len(),
            self.children@.len() == before.children@.len(),
            self.parents@.len() == before.parents@.len(),
            self.rank@ == before.rank@,
            self.rank_bound@ == before.rank_bound@,
            forall|p: NodeId|
                before.contains(p) ==> #[trigger] self.children@[p.index as int] == before.children@[p.index as int]
                    || self.children@[p.index as int]@.len() == 0,
            forall|c: NodeId|
                before.contains(c) ==> #[trigger] self.parents@[c.index as int] == match before.parents@[c.index as int] {
                    Some(p) => if self.children@[p.index as int]@.len() == 0 && before.children@[p.index as int]@.len()
                        > 0 {
                        None
                    } else {
                        Some(p)
                    },
                    None => None,
                },
        ensures
            self.linked(),
    {
        reveal(links_ok);
        assert forall|p: NodeId, i: int|
            self.contains(p) && 0 <= i < self.children_of(p).len() implies {
            let c = #[trigger] self.children_of(p)[i];
            &&& self.contains(c)
            &&& self.parent_of(c) == Some(p)
            &&& self.rank@[c.index as int] < self.rank@[p.index as int]
        } by {
            assert(self.children@[p.index as int] == before.children@[p.index as int]);
            let c = before.children_of(p)[i];
            assert(before.parent_of(c) == Some(p));
            assert(self.parents@[c.index as int] == Some(p));
        }
        assert forall|c: NodeId| self.contains(c) implies match #[trigger] self.parent_of(c) {
            Some(p) => self.contains(p) && self.children_of(p).contains(c),
            None => true,
        } by {
            if self.parent_of(c) is Some {
                let p = self.parent_of(c)->0;
                assert(before.parents@[c.index as int] == Some(p));
                assert(before.contains(p) && before.children_of(p).contains(c));
                assert(self.children@[p.index as int] == before.children@[p.index as int]);
            }
        }
        assert forall|p: NodeId| self.contains(p) implies (#[trigger] self.children_of(p)).no_duplicates() by {
            assert(before.children_of(p).no_duplicates());
        }
    }

    /// State of the removal of what is below `node` when the first `i`
    /// children have been dealt with: `node`, these children and what is
    /// below them are gone, the other children have lost their parent, and
    /// everything else is as in `before`.
    pub open spec fn pruning(&self, before: &Self, node: NodeId, i: int) -> bool {
        &&& forall|a: NodeId|
            before.contains(a) ==> #[trigger] self.alive@[a.index as int] == (before.alive@[a.index as int]
                && !(a == node || under_first(before, node, i, a)))
        &&& forall|a: NodeId|
            before.contains(a) ==> #[trigger] self.parents@[a.index as int] == if a == node || under_first(
                before,
                node,
                i,
                a,
            ) || before.children_of(node).contains(a) {
                None
            } else {
                before.parents@[a.index as int]
            }
        &&& forall|a: NodeId|
            before.contains(a) ==> #[trigger] self.children@[a.index as int]@ == if a == node || under_first(
                before,
                node,
                i,
                a,
            ) {
                Seq::empty()
            } else {
                before.children_of(a)
            }
    }

    /// While what is below `node` is removed, the part below a child that has
    /// not been dealt with is what it was.
    proof fn lemma_pruning_child(&self, before: &Self, node: NodeId, i: int, a: NodeId)
        requires
            before.wf(),
            self.wf(),
            before.is_node(node),
            self.len() == before.len(),
            self.pruning(before, node, i),
            0 <= i < before.children_of(node).len(),
            before.contains(a),
        ensures
            self.is_ancestor_or_self(before.children_of(node)[i], a) <==> before.is_ancestor_or_self(
                before.children_of(node)[i],
                a,
            ),
    {
        let k = before.children_of(node)[i];
        before.lemma_children_below(node);
        if self.is_ancestor_or_self(k, a) {
            self.lemma_chain_shortened(before, k, a);
        }
        if before.is_ancestor_or_self(k, a) {
            assert forall|x: NodeId|
                before.contains(x) && before.is_ancestor_or_self(k, x) && x != k implies #[trigger] self.parents@[x.index as int]
                == before.parents@[x.index as int] by {
                before.lemma_below_child_is_below(node, i, x);
                if under_first(before, node, i, x) {
                    let j = choose|j: int|
                        0 <= j < i && before.is_ancestor_or_self(#[trigger] before.children_of(node)[j], x);
                    before.lemma_children_disjoint(node, j, i, x);
                }
                if before.children_of(node).contains(x) {
                    let j = choose|j: int|
                        0 <= j < before.children_of(node).len() && before.children_of(node)[j] == x;
                    before.lemma_children_disjoint(node, j, i, x);
                }
            }
            self.lemma_chain_kept(before, k, a);
        }
    }

    /// Removes `node`, which has no parent, and every node below it.
    pub(crate) fn prune(&mut self, node: NodeId)
        requires
            old(self).wf(),
            old(self).is_node(node),
            old(self).parent_of(node) is None,
        ensures
            final(self).wf(),
            final(self).same_content(old(self)),
            final(self).dirty == old(self).dirty,
            final(self).caches == old(self).caches,
            final(self).rank@ == old(self).rank@,
            final(self).rank_bound@ == old(self).rank_bound@,
            final(self).pruned(old(self), node),
        decreases old(self).rank@[node.index as int],
    {
        let ghost before = *self;
        let kids = copy_of(&self.children[node.index]);
        proof {
            before.lemma_children_below(node);
        }
        set_parents(&mut self.parents, &kids, None);
        self.children[node.index] = Vec::new();
        self.alive[node.index] = false;
        proof {
            assert forall|c: NodeId| before.contains(c) implies #[trigger] self.parents@[c.index as int]
                == match before.parents@[c.index as int] {
                Some(p) => if self.children@[p.index as int]@.len() == 0 && before.children@[p.index as int]@.len()
                    > 0 {
                    None
                } else {
                    Some(p)
                },
                None => None,
            } by {
                if before.parents@[c.index as int] is Some {
                    before.lemma_parent_ranked(c);
                }
                if kids@.contains(c) {
                    let j = choose|j: int| 0 <= j < kids@.len() && kids@[j] == c;
                    assert(before.parent_of(before.children_of(node)[j]) == Some(node));
                }
            }
            self.lemma_fewer_links(&before);
            assert(self.isolated());
            assert(self.pruning(&before, node, 0));
        }
        let mut i: usize = 0;
        while i < kids.len()
            invariant
                before.wf(),
                before.is_node(node),
                before.parent_of(node) is None,
                *old(self) == before,
                kids@ == before.children_of(node),
                i <= kids@.len(),
                self.wf(),
                self.same_content(&before),
                self.dirty == before.dirty,
                self.caches == before.caches,
                self.rank@ == before.rank@,
                self.rank_bound@ == before.rank_bound@,
                self.pruning(&before, node, i as int),
            decreases kids.len() - i,
        {
            let child = kids[i];
            let ghost mid = *self;
            proof {
                before.lemma_children_below(node);
                assert(before.children_of(node)[i as int] == child);
                assert(before.alive@[child.index as int]);
                if under_first(&before, node, i as int, child) {
                    let j = choose|j: int|
                        0 <= j < i && before.is_ancestor_or_self(#[trigger] before.children_of(node)[j], child);
                    before.lemma_children_disjoint(node, j, i as int, child);
                }
                assert(before.children_of(node).contains(child));
            }
            self.prune(child);
            proof {
                assert forall|a: NodeId| before.contains(a) implies (under_first(&before, node, i + 1, a)
                    <==> under_first(&before, node, i as int, a) || mid.is_ancestor_or_self(child, a)) by {
                    mid.lemma_pruning_child(&before, node, i as int, a);
                    if under_first(&before, node, i + 1, a) {
                        let j = choose|j: int|
                            0 <= j < i + 1 && before.is_ancestor_or_self(
                                #[trigger] before.children_of(node)[j],
                                a,
                            );
                        if j < i {
                            assert(under_first(&before, node, i as int, a));
                        }
                    }
                    if under_first(&before, node, i as int, a) {
                        let j = choose|j: int|
                            0 <= j < i && before.is_ancestor_or_self(#[trigger] before.children_of(node)[j], a);
                        assert(0 <= j < i + 1);
                    }
                    if mid.is_ancestor_or_self(child, a) {
                        assert(before.is_ancestor_or_self(before.children_of(node)[i as int], a));
                    }
                }
                assert forall|a: NodeId| before.contains(a) implies #[trigger] self.alive@[a.index as int]
                    == (before.alive@[a.index as int] && !(a == node || under_first(&before, node, i + 1, a))) by {
                    assert(mid.alive@[a.index as int] == (before.alive@[a.index as int] && !(a == node
                        || under_first(&before, node, i as int, a))));
                }
                assert forall|a: NodeId| before.contains(a) implies #[trigger] self.parents@[a.index as int]
                    == if a == node || under_first(&before, node, i + 1, a) || before.children_of(
                    node,
                ).contains(a) {
                    None
                } else {
                    before.parents@[a.index as int]
                } by {
                    assert(mid.parents@[a.index as int] == if a == node || under_first(
                        &before,
                        node,
                        i as int,
                        a,
                    ) || before.children_of(node).contains(a) {
                        None
                    } else {
                        before.parents@[a.index as int]
                    });
                }
                assert forall|a: NodeId| before.contains(a) implies #[trigger] self.children@[a.index as int]@
                    == if a == node || under_first(&before, node, i + 1, a) {
                    Seq::empty()
                } else {
                    before.children_of(a)
                } by {
                    assert(mid.children@[a.index as int]@ == if a == node || under_first(
                        &before,
                        node,
                        i as int,
                        a,
                    ) {
                        Seq::empty()
                    } else {
                        before.children_of(a)
                    });
                    assert(mid.parent_of(child) is None);
                }
            }
            i += 1;
        }
        proof {
            assert forall|a: NodeId| before.contains(a) implies ((a == node || under_first(
                &before,
                node,
                kids@.len() as int,
                a,
            )) <==> before.is_ancestor_or_self(node, a)) by {
                if under_first(&before, node, kids@.len() as int, a) {
                    let j = choose|j: int|
                        0 <= j < kids@.len() && before.is_ancestor_or_self(
                            #[trigger] before.children_of(node)[j],
                            a,
                        );
                    before.lemma_below_child_is_below(node, j, a);
                }
                if before.is_ancestor_or_self(node, a) && a != node {
                    let j = before.lemma_below_some_child(node, a);
                    assert(before.is_ancestor_or_self(before.children_of(node)[j], a));
                }
            }
            assert forall|a: NodeId| before.contains(a) && before.children_of(node).contains(
                a,
            ) implies under_first(&before, node, kids@.len() as int, a) by {
                let j = choose|j: int|
                    0 <= j < before.children_of(node).len() && before.children_of(node)[j] == a;
                assert(before.is_ancestor_or_self(before.children_of(node)[j], a));
            }
        }
    }

    /// Removes `node` and every node below it from the forest. The node is
    /// taken from its parent's children, and the parent and its ancestors
    /// are marked dirty. The handles of the removed nodes name no node any
    /// more.
    pub fn remove(&mut self, node: NodeId) -> (r: Result<(), Error>)
        requires
            old(self).wf(),
        ensures
            final(self).wf(),
            old(self).is_node(node) <==> r is Ok,
            r matches Err(e) ==> e == Error::InvalidNode(node) && *final(self) == *old(self),
            r is Ok ==> {
                &&& final(self).same_content(old(self))
                &&& final(self).pruned(old(self), node)
                &&& match old(self).parent_of(node) {
                    Some(p) => final(self).marked_from(old(self), p),
                    None => final(self).dirty == old(self).dirty && final(self).caches == old(self).caches,
                }
            },
    {
        if node.index >= self.styles.len() || !self.alive[node.index] {
            return Err(Error::InvalidNode(node));
        }
        let ghost before = *self;
        match self.parents[node.index] {
            Some(parent) => {
                proof {
                    before.lemma_parent_ranked(node);
                    before.lemma_children_below(parent);
                    assert(before.alive@[parent.index as int]);
                }
                match self.remove_child(parent, node) {
                    Ok(_) => {},
                    Err(e) => {
                        return Err(e);
                    },
                }
                proof {
                    let list = before.children_of(parent).remove(before.children_of(parent).index_of(node));
                    crate::links::lemma_remove_distinct(
                        before.children_of(parent),
                        before.children_of(parent).index_of(node),
                    );
                    assert(self.parents@[node.index as int] is None);
                }
            },
            None => {},
        }
        let ghost mid = *self;
        self.prune(node);
        proof {
            assert forall|x: NodeId| mid.contains(x) implies #[trigger] mid.parents@[x.index as int]
                == before.parents@[x.index as int] || mid.parents@[x.index as int] is None by {
                if before.parent_of(node) is Some {
                    let parent = before.parent_of(node)->0;
                    let list = before.children_of(parent).remove(before.children_of(parent).index_of(node));
                    crate::links::lemma_remove_distinct(
                        before.children_of(parent),
                        before.children_of(parent).index_of(node),
                    );
                    if list.contains(x) {
                        let j = choose|j: int|
                            0 <= j < before.children_of(parent).len() && before.children_of(parent)[j] == x;
                        before.lemma_children_below(parent);
                        assert(before.parent_of(before.children_of(parent)[j]) == Some(parent));
                    }
                }
            }
            assert forall|a: NodeId| before.contains(a) implies (mid.is_ancestor_or_self(node, a)
                <==> before.is_ancestor_or_self(node, a)) by {
                if mid.is_ancestor_or_self(node, a) {
                    mid.lemma_chain_shortened(&before, node, a);
                }
                if before.is_ancestor_or_self(node, a) {
                    assert forall|x: NodeId|
                        before.contains(x) && before.is_ancestor_or_self(node, x) && x != node implies #[trigger] mid.parents@[x.index as int]
                        == before.parents@[x.index as int] by {
                        if before.parent_of(node) is Some {
                            let parent = before.parent_of(node)->0;
                            let list = before.children_of(parent).remove(
                                before.children_of(parent).index_of(node),
                            );
                            crate::links::lemma_remove_distinct(
                                before.children_of(parent),
                                before.children_of(parent).index_of(node),
                            );
                            before.lemma_children_below(parent);
                            if before.children_of(parent).contains(x) {
                                let j = choose|j: int|
                                    0 <= j < before.children_of(parent).len() && before.children_of(
                                        parent,
                                    )[j] == x;
                                assert(before.parent_of(before.children_of(parent)[j]) == Some(parent));
                                assert(list.contains(x));
                            }
                            if list.contains(x) {
                                let j = choose|j: int|
                                    0 <= j < before.children_of(parent).len() && before.children_of(
                                        parent,
                                    )[j] == x;
                                assert(before.parent_of(before.children_of(parent)[j]) == Some(parent));
                            }
                        }
                    }
                    mid.lemma_chain_kept(&before, node, a);
                }
            }
            assert forall|a: NodeId| before.contains(a) implies #[trigger] self.children@[a.index as int]@
                == if before.is_ancestor_or_self(node, a) {
                Seq::empty()
            } else if before.parent_of(node) == Some(a) {
                before.children_of(a).remove(before.children_of(a).index_of(node))
            } else {
                before.children_of(a)
            } by {
                assert(mid.parent_of(node) is None);
                if before.parent_of(node) is Some && a != before.parent_of(node)->0 {
                    assert(mid.children@[a.index as int] == before.children@[a.index as int]);
                }
                if before.parent_of(node) == Some(a) {
                    before.lemma_parent_ranked(node);
                    if before.is_ancestor_or_self(node, a) {
                        before.lemma_ancestor_ranked(node, a);
                    }
                }
            }
            assert forall|a: NodeId| before.contains(a) implies #[trigger] self.parents@[a.index as int]
                == if before.is_ancestor_or_self(node, a) {
                None
            } else {
                before.parents@[a.index as int]
            } by {
                assert(mid.parents@[a.index as int] == before.parents@[a.index as int]
                    || mid.parents@[a.index as int] is None);
                if a != node && before.parent_of(node) is Some {
                    let parent = before.parent_of(node)->0;
                    let list = before.children_of(parent).remove(before.children_of(parent).index_of(node));
                    crate::links::lemma_remove_distinct(
                        before.children_of(parent),
                        before.children_of(parent).index_of(node),
                    );
                    before.lemma_children_below(parent);
                    if before.children_of(parent).contains(a) {
                        assert(list.contains(a));
                    }
                    if list.contains(a) {
                        let j = choose|j: int|
                            0 <= j < before.children_of(parent).len() && before.children_of(parent)[j] == a;
                        assert(before.parent_of(before.children_of(parent)[j]) == Some(parent));
                    }
                }
            }
        }
        Ok(())
    }
}

} // verus!
