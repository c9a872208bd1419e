//! Changes to the forest: styles, measurers, links and dirty marks.

use crate::forest::{links_ok, on_parent_chain, Error, Forest, MeasureFunc, NodeId};
use crate::style::Style;
use vstd::prelude::*;

verus! {

impl<M: MeasureFunc> Forest<M> {
    /// The links and ranks are those of `before`.
    pub open spec fn same_links(&self, before: &Self) -> bool {
        &&& self.children == before.children
        &&& self.parents == before.parents
        &&& self.alive == before.alive
        &&& self.rank@ == before.rank@
        &&& self.rank_bound@ == before.rank_bound@
    }

    /// Layouts and the count of measurer calls are those of `before`.
    pub open spec fn same_results(&self, before: &Self) -> bool {
        &&& self.layouts == before.layouts
        &&& self.measure_calls == before.measure_calls
    }

    /// Against `before`, exactly `node` and its ancestors have been marked:
    /// they are dirty and remember no result; every other node is as it was.
    pub open spec fn marked_from(&self, before: &Self, node: NodeId) -> bool {
        &&& self.dirty@.len() == before.dirty@.len()
        &&& self.caches@.len() == before.caches@.len()
        &&& forall|a: NodeId|
            #![trigger self.dirty@[a.index as int]]
            #![trigger self.caches@[a.index as int]]
            before.contains(a) && before.is_ancestor_or_self(a, node) ==> self.dirty@[a.index as int]
                && self.caches@[a.index as int] is None
        &&& forall|a: NodeId|
            #![trigger self.dirty@[a.index as int]]
            #![trigger self.caches@[a.index as int]]
            before.contains(a) && !before.is_ancestor_or_self(a, node) ==> self.dirty@[a.index as int]
                == before.dirty@[a.index as int] && self.caches@[a.index as int]
                == before.caches@[a.index as int]
    }

    /// Under the invariant, the ancestors of a node are the node's parent and
    /// the parent's ancestors.
    pub proof fn lemma_ancestor_unfold(&self, a: NodeId, n: NodeId)
        requires
            self.wf(),
            self.contains(n),
        ensures
            self.is_ancestor_or_self(a, n) <==> (a == n || (self.parent_of(n) matches Some(p)
                && self.is_ancestor_or_self(a, p))),
    {
        if self.parent_of(n) is Some {
            self.lemma_parent_ranked(n);
        }
    }

    /// Every rank lies below the bound.
    pub proof fn lemma_rank_bounded(&self, a: NodeId)
        requires
            self.wf(),
            self.contains(a),
        ensures
            self.rank@[a.index as int] < self.rank_bound@,
    {
        reveal(links_ok);
    }

    /// An ancestor is a node of the forest and ranks no lower than its descendant.
    pub proof fn lemma_ancestor_ranked(&self, a: NodeId, n: NodeId)
        requires
            self.wf(),
            self.contains(n),
            self.is_ancestor_or_self(a, n),
        ensures
            self.contains(a),
            self.rank@[a.index as int] >= self.rank@[n.index as int],
        decreases self.rank_bound@ - self.rank@[n.index as int],
    {
        if a != n {
            let p = self.parent_of(n)->0;
            self.lemma_parent_ranked(n);
            self.lemma_ancestor_ranked(a, p);
        }
    }

    /// The parent of an ancestor of `n` is an ancestor of `n`.
    pub proof fn lemma_ancestor_parent(&self, c: NodeId, n: NodeId)
        requires
            self.wf(),
            self.contains(n),
            self.is_ancestor_or_self(c, n),
            self.contains(c),
            self.parent_of(c) is Some,
        ensures
            self.is_ancestor_or_self(self.parent_of(c)->0, n),
        decreases self.rank_bound@ - self.rank@[n.index as int],
    {
        let p = self.parent_of(c)->0;
        if c == n {
            self.lemma_parent_ranked(n);
            assert(on_parent_chain(self.parents@, self.rank@, self.rank_bound@, p, p));
        } else {
            let q = self.parent_of(n)->0;
            self.lemma_parent_ranked(n);
            self.lemma_ancestor_parent(c, q);
        }
    }

    /// State of a walk up from `node` that has reached `cur`: the nodes on the
    /// chain below `cur` (and `cur` itself once `done`) are marked, the others
    /// are as in `before`.
    pub open spec fn marked_below(
        &self,
        before: &Self,
        node: NodeId,
        cur: NodeId,
        done: bool,
    ) -> bool {
        &&& self.dirty@.len() == before.dirty@.len()
        &&& self.caches@.len() == before.caches@.len()
        &&& forall|a: NodeId|
            #![trigger self.dirty@[a.index as int]]
            #![trigger self.caches@[a.index as int]]
            before.contains(a) && before.is_ancestor_or_self(a, node) && (done
                || !before.is_ancestor_or_self(a, cur)) ==> self.dirty@[a.index as int]
                && self.caches@[a.index as int] is None
        &&& forall|a: NodeId|
            #![trigger self.dirty@[a.index as int]]
            #![trigger self.caches@[a.index as int]]
            before.contains(a) && !(before.is_ancestor_or_self(a, node) && (done
                || !before.is_ancestor_or_self(a, cur))) ==> self.dirty@[a.index as int]
                == before.dirty@[a.index as int] && self.caches@[a.index as int]
                == before.caches@[a.index as int]
    }

    /// Marking `cur` lets the walk move on to the parent of `cur`, or end at a root.
    proof fn lemma_walk_step(&self, before: &Self, mid: &Self, node: NodeId, cur: NodeId)
        requires
            before.wf(),
            before.contains(node),
            before.contains(cur),
            before.is_ancestor_or_self(cur, node),
            mid.marked_below(before, node, cur, false),
            self.dirty@ == mid.dirty@.update(cur.index as int, true),
            self.caches@ == mid.caches@.update(cur.index as int, None),
        ensures
            before.parent_of(cur) matches Some(p) ==> {
                &&& before.contains(p)
                &&& before.is_ancestor_or_self(p, node)
                &&& before.rank@[cur.index as int] < before.rank@[p.index as int]
                &&& before.rank@[p.index as int] < before.rank_bound@
                &&& self.marked_below(before, node, p, false)
            },
            before.parent_of(cur) is None ==> self.marked_below(before, node, cur, true),
            before.rank@[cur.index as int] < before.rank_bound@,
    {
        before.lemma_rank_bounded(cur);
        if before.parent_of(cur) is Some {
            let p = before.parent_of(cur)->0;
            before.lemma_parent_ranked(cur);
            before.lemma_ancestor_parent(cur, node);
            if before.is_ancestor_or_self(cur, p) {
                before.lemma_ancestor_ranked(cur, p);
            }
        }
        assert forall|a: NodeId| before.contains(a) implies (#[trigger] before.is_ancestor_or_self(
            a,
            cur,
        ) <==> (a == cur || (before.parent_of(cur) matches Some(p) && before.is_ancestor_or_self(a, p)))) by {
            before.lemma_ancestor_unfold(a, cur);
        }
    }

    /// Marks a node and its ancestors.
    pub(crate) fn touch(&mut self, node: NodeId)
        requires
            old(self).wf(),
            old(self).contains(node),
        ensures
            final(self).wf(),
            final(self).same_links(old(self)),
            final(self).same_results(old(self)),
            final(self).styles == old(self).styles,
            final(self).measures == old(self).measures,
            final(self).marked_from(old(self), node),
    {
        let ghost before = *self;
        let mut cur = node;
        let mut done = false;
        while !done
            invariant
                before.wf(),
                before.contains(node),
                self.sized(),
                self.same_links(&before),
                self.same_results(&before),
                self.styles == before.styles,
                self.measures == before.measures,
                before.contains(cur),
                before.is_ancestor_or_self(cur, node),
                self.marked_below(&before, node, cur, done),
            decreases
                    if done {
                        0
                    } else {
                        before.rank_bound@ - before.rank@[cur.index as int] + 1
                    },
        {
            let ghost mid = *self;
            self.dirty[cur.index] = true;
            self.caches[cur.index] = None;
            proof {
                self.lemma_walk_step(&before, &mid, node, cur);
            }
            match self.parents[cur.index] {
                Some(p) => {
                    assert(before.parent_of(cur) == Some(p));
                    assert(before.rank@[cur.index as int] < before.rank@[p.index as int]);
                    cur = p;
                },
                None => {
                    done = true;
                },
            }
        }
        proof {
            assert forall|a: NodeId|
                #![trigger self.dirty@[a.index as int]]
                #![trigger self.caches@[a.index as int]]
                self.contains(a) && self.dirty@[a.index as int] implies self.caches@[a.index as int] is None by {
                if !before.is_ancestor_or_self(a, node) {
                    assert(before.dirty@[a.index as int]);
                }
            }
        }
    }

    /// Marks the node and all its ancestors dirty, and forgets what was
    /// remembered for them.
    pub fn mark_dirty(&mut self, node: NodeId) -> (r: Result<(), Error>)
        requires
            old(self).wf(),
        ensures
            final(self).wf(),
            old(self).is_node(node) <==> r is Ok,
            r matches Err(e) ==> e == Error::InvalidNode(node) && *final(self) == *old(self),
            r is Ok ==> {
                &&& final(self).same_links(old(self))
                &&& final(self).same_results(old(self))
                &&& final(self).styles == old(self).styles
                &&& final(self).measures == old(self).measures
                &&& final(self).marked_from(old(self), node)
            },
    {
        if node.index >= self.styles.len() || !self.alive[node.index] {
            return Err(Error::InvalidNode(node));
        }
        self.touch(node);
        Ok(())
    }

    /// Replaces the style of the node and marks it and its ancestors dirty.
    pub fn set_style(&mut self, node: NodeId, style: Style) -> (r: Result<(), Error>)
        requires
            old(self).wf(),
        ensures
            final(self).wf(),
            old(self).is_node(node) <==> r is Ok,
            r matches Err(e) ==> e == Error::InvalidNode(node) && *final(self) == *old(self),
            r is Ok ==> {
                &&& final(self).same_links(old(self))
                &&& final(self).same_results(old(self))
                &&& final(self).styles@ == old(self).styles@.update(node.index as int, style)
                &&& final(self).measures == old(self).measures
                &&& final(self).marked_from(old(self), node)
            },
    {
        if node.index >= self.styles.len() || !self.alive[node.index] {
            return Err(Error::InvalidNode(node));
        }
        self.touch(node);
        self.styles[node.index] = style;
        Ok(())
    }

    /// Attaches or clears the measurer of the node and marks it and its
    /// ancestors dirty.
    pub fn set_measure(&mut self, node: NodeId, measure: Option<M>) -> (r: Result<(), Error>)
        requires
            old(self).wf(),
        ensures
            final(self).wf(),
            old(self).is_node(node) <==> r is Ok,
            r matches Err(e) ==> e == Error::InvalidNode(node) && *final(self) == *old(self),
            r is Ok ==> {
                &&& final(self).same_links(old(self))
                &&& final(self).same_results(old(self))
                &&& final(self).styles == old(self).styles
                &&& final(self).measures@ == old(self).measures@.update(node.index as int, measure)
                &&& final(self).marked_from(old(self), node)
            },
    {
        if node.index >= self.styles.len() || !self.alive[node.index] {
            return Err(Error::InvalidNode(node));
        }
        self.touch(node);
        self.measures[node.index] = measure;
        Ok(())
    }
}

/// After a style is set, the node and every ancestor up to the root is dirty.
pub proof fn lemma_set_style_dirties_ancestors<M: MeasureFunc>(
    before: &Forest<M>,
    after: &Forest<M>,
    node: NodeId,
    ancestor: NodeId,
)
    requires
        before.wf(),
        before.contains(node),
        after.marked_from(before, node),
        before.is_ancestor_or_self(ancestor, node),
    ensures
        after.is_dirty(ancestor),
        after.cache_of(ancestor) is None,
{
    before.lemma_ancestor_ranked(ancestor, node);
}

} // verus!
