//! How the subtrees of a forest lie to each other.

use crate::forest::{Forest, MeasureFunc, NodeId};
use vstd::prelude::*;

verus! {

impl<M: MeasureFunc> Forest<M> {
    /// The ancestors of a node form a chain: of two of them, one is an
    /// ancestor of the other.
    pub proof fn lemma_ancestors_chain(&self, a: NodeId, b: NodeId, m: NodeId)
        requires
            self.wf(),
            self.contains(m),
            self.is_ancestor_or_self(a, m),
            self.is_ancestor_or_self(b, m),
        ensures
            self.is_ancestor_or_self(a, b) || self.is_ancestor_or_self(b, a),
        decreases self.rank_bound@ - self.rank@[m.index as int],
    {
        self.lemma_ancestor_unfold(a, m);
        self.lemma_ancestor_unfold(b, m);
        if a != m && b != m {
            let p = self.parent_of(m)->0;
            self.lemma_parent_ranked(m);
            self.lemma_ancestors_chain(a, b, p);
        }
    }

    /// What lies below a child of `node` lies below `node`, and is not `node`.
    pub proof fn lemma_below_child_is_below(&self, node: NodeId, k: int, m: NodeId)
        requires
            self.wf(),
            self.contains(node),
            self.contains(m),
            0 <= k < self.children_of(node).len(),
            self.is_ancestor_or_self(self.children_of(node)[k], m),
        ensures
            self.is_ancestor_or_self(node, m),
            m != node,
    {
        let c = self.children_of(node)[k];
        self.lemma_children_below(node);
        self.lemma_ancestor_parent(c, m);
    }

    /// No node lies below two children of one node.
    pub proof fn lemma_children_disjoint(&self, node: NodeId, j: int, k: int, m: NodeId)
        requires
            self.wf(),
            self.contains(node),
            self.contains(m),
            0 <= j < self.children_of(node).len(),
            0 <= k < self.children_of(node).len(),
            j != k,
        ensures
            !(self.is_ancestor_or_self(self.children_of(node)[j], m) && self.is_ancestor_or_self(
                self.children_of(node)[k],
                m,
            )),
    {
        let a = self.children_of(node)[j];
        let b = self.children_of(node)[k];
        self.lemma_children_below(node);
        if self.is_ancestor_or_self(a, m) && self.is_ancestor_or_self(b, m) {
            self.lemma_ancestors_chain(a, b, m);
            assert(a != b);
            if self.is_ancestor_or_self(a, b) {
                self.lemma_ancestor_unfold(a, b);
            } else {
                self.lemma_ancestor_unfold(b, a);
            }
        }
    }

    /// What lies below `node` and is not `node` lies below one of its children.
    pub proof fn lemma_below_some_child(&self, node: NodeId, m: NodeId) -> (k: int)
        requires
            self.wf(),
            self.contains(node),
            self.contains(m),
            self.is_ancestor_or_self(node, m),
            m != node,
        ensures
            0 <= k < self.children_of(node).len(),
            self.is_ancestor_or_self(self.children_of(node)[k], m),
        decreases self.rank_bound@ - self.rank@[m.index as int],
    {
        self.lemma_ancestor_unfold(node, m);
        let p = self.parent_of(m)->0;
        self.lemma_parent_ranked(m);
        if p == node {
            let k = choose|k: int| 0 <= k < self.children_of(node).len() && self.children_of(node)[k] == m;
            k
        } else {
            let k = self.lemma_below_some_child(node, p);
            self.lemma_ancestor_unfold(self.children_of(node)[k], m);
            k
        }
    }
}

} // verus!
