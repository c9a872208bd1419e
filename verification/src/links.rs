//! Changes to the parent and child links of the forest.

use crate::forest::{links_ok, Error, Forest, MeasureFunc, NodeId};
use crate::style::Style;
use vstd::prelude::*;

verus! {

impl<M: MeasureFunc> Forest<M> {
    /// Every handle in `list` names a node.
    pub open spec fn all_known(&self, list: Seq<NodeId>) -> bool {
        forall|i: int| 0 <= i < list.len() ==> self.is_node(#[trigger] list[i])
    }

    /// The nodes in `list` can become the children of one node: each is known
    /// and has no parent, and none is named twice.
    pub open spec fn attachable(&self, list: Seq<NodeId>) -> bool {
        &&& self.all_known(list)
        &&& forall|i: int| 0 <= i < list.len() ==> self.parent_of(#[trigger] list[i]) is None
        &&& list.no_duplicates()
    }

    /// `k` is the first position in `list` of a handle that names no node.
    pub open spec fn first_unknown(&self, list: Seq<NodeId>, k: int) -> bool {
        &&& 0 <= k < list.len()
        &&& !self.is_node(list[k])
        &&& forall|j: int| 0 <= j < k ==> self.is_node(#[trigger] list[j])
    }

    /// None of the nodes in `list` is `node` or one of its ancestors.
    pub open spec fn none_above(&self, list: Seq<NodeId>, node: NodeId) -> bool {
        forall|i: int| 0 <= i < list.len() ==> !self.is_ancestor_or_self(#[trigger] list[i], node)
    }

    /// Against `before`, the children of `node` have become `list`: the nodes in
    /// `list` have `node` as parent, former children that left have none, and
    /// all other links are as they were.
    pub open spec fn relinked(&self, before: &Self, node: NodeId, list: Seq<NodeId>) -> bool {
        &&& self.alive == before.alive
        &&& self.children@.len() == before.children@.len()
        &&& self.parents@.len() == before.parents@.len()
        &&& self.rank@.len() == before.rank@.len()
        &&& self.children@[node.index as int]@ == list
        &&& forall|p: NodeId|
            before.contains(p) && p != node ==> #[trigger] self.children@[p.index as int]
                == before.children@[p.index as int]
        &&& forall|c: NodeId|
            before.contains(c) ==> #[trigger] self.parents@[c.index as int] == if list.contains(c) {
                Some(node)
            } else if before.children_of(node).contains(c) {
                None
            } else {
                before.parents@[c.index as int]
            }
        &&& forall|a: NodeId|
            before.contains(a) ==> #[trigger] self.rank@[a.index as int] == if before.is_ancestor_or_self(
                a,
                node,
            ) {
                before.rank@[a.index as int] + before.rank_bound@
            } else {
                before.rank@[a.index as int]
            }
        &&& self.rank_bound@ == before.rank_bound@ + before.rank_bound@
    }

    /// Against `before`, one node with children `list` has been added at the end
    /// of the arena.
    pub open spec fn grown(&self, before: &Self, style: Style, list: Seq<NodeId>) -> bool {
        let id = NodeId { index: before.styles@.len() as usize };
        &&& self.styles@ == before.styles@.push(style)
        &&& self.measures@ == before.measures@.push(None)
        &&& self.alive@ == before.alive@.push(true)
        &&& self.dirty@ == before.dirty@.push(true)
        &&& self.layouts@ == before.layouts@.push(None)
        &&& self.caches@ == before.caches@.push(None)
        &&& self.measure_calls == before.measure_calls
        &&& self.children@.len() == before.children@.len() + 1
        &&& self.children@[id.index as int]@ == list
        &&& forall|p: NodeId|
            before.contains(p) ==> #[trigger] self.children@[p.index as int]
                == before.children@[p.index as int]
        &&& self.parents@.len() == before.parents@.len() + 1
        &&& self.parents@[id.index as int] is None
        &&& forall|c: NodeId|
            before.contains(c) ==> #[trigger] self.parents@[c.index as int] == if list.contains(c) {
                Some(id)
            } else {
                before.parents@[c.index as int]
            }
        &&& self.rank@ == before.rank@.push(before.rank_bound@)
        &&& self.rank_bound@ == before.rank_bound@ + 1
    }

    /// Replacing a node's children by nodes that are free or already its own,
    /// none of them above it, keeps the links consistent.
    pub proof fn lemma_relinked_linked(&self, before: &Self, node: NodeId, list: Seq<NodeId>)
        requires
            before.wf(),
            before.contains(node),
            before.all_known(list),
            list.no_duplicates(),
            forall|i: int|
                0 <= i < list.len() ==> before.parent_of(#[trigger] list[i]) is None || before.parent_of(
                    list[i],
                ) == Some(node),
            before.none_above(list, node),
            self.styles@.len() == before.styles@.len(),
            self.relinked(before, node, list),
        ensures
            self.linked(),
    {
        reveal(links_ok);
        assert forall|p: NodeId, i: int|
            self.contains(p) && 0 <= i < self.children_of(p).len() implies {
            let c = #[trigger] self.children_of(p)[i];
            &&& self.contains(c)
            &&& self.parent_of(c) == Some(p)
            &&& self.rank@[c.index as int] < self.rank@[p.index as int]
        } by {
            let c = self.children_of(p)[i];
            if p == node {
                assert(list[i] == c);
                assert(list.contains(c));
                assert(!before.is_ancestor_or_self(c, node));
                assert(self.parents@[c.index as int] == Some(node));
                assert(self.rank@[c.index as int] == before.rank@[c.index as int]);
                assert(self.rank@[node.index as int] == before.rank@[node.index as int]
                    + before.rank_bound@);
            } else {
                assert(self.children@[p.index as int] == before.children@[p.index as int]);
                assert(before.children_of(p)[i] == c);
                assert(before.parent_of(c) == Some(p));
                if list.contains(c) {
                    let k = choose|k: int| 0 <= k < list.len() && list[k] == c;
                    assert(before.parent_of(list[k]) is None || before.parent_of(list[k]) == Some(
                        node,
                    ));
                }
                if before.children_of(node).contains(c) {
                    let k = choose|k: int|
                        0 <= k < before.children_of(node).len() && before.children_of(node)[k] == c;
                    assert(before.parent_of(before.children_of(node)[k]) == Some(node));
                }
                assert(self.parents@[c.index as int] == Some(p));
                if before.is_ancestor_or_self(c, node) {
                    before.lemma_ancestor_parent(c, node);
                }
                assert(self.rank@[c.index as int] < self.rank@[p.index as int]);
            }
        }
        assert forall|c: NodeId| self.contains(c) implies match #[trigger] self.parent_of(c) {
            Some(p) => self.contains(p) && self.children_of(p).contains(c),
            None => true,
        } by {
            if list.contains(c) {
                assert(self.parents@[c.index as int] == Some(node));
            } else if before.children_of(node).contains(c) {
                assert(self.parents@[c.index as int] is None);
            } else {
                assert(self.parents@[c.index as int] == before.parents@[c.index as int]);
                if before.parent_of(c) is Some {
                    let p = before.parent_of(c)->0;
                    assert(before.contains(p) && before.children_of(p).contains(c));
                    assert(p != node);
                    assert(self.children@[p.index as int] == before.children@[p.index as int]);
                }
            }
        }
        assert forall|p: NodeId| self.contains(p) implies (#[trigger] self.children_of(
            p,
        )).no_duplicates() by {
            if p != node {
                assert(self.children@[p.index as int] == before.children@[p.index as int]);
                assert(before.children_of(p).no_duplicates());
            }
        }
        assert forall|a: NodeId| self.contains(a) implies #[trigger] self.rank@[a.index as int]
            < self.rank_bound@ by {
            assert(before.rank@[a.index as int] < before.rank_bound@);
        }
    }

    /// Adding a node whose children were free keeps the links consistent.
    pub proof fn lemma_grown_linked(&self, before: &Self, style: Style, list: Seq<NodeId>)
        requires
            before.wf(),
            before.attachable(list),
            before.styles@.len() < usize::MAX,
            self.grown(before, style, list),
        ensures
            self.linked(),
    {
        reveal(links_ok);
        let id = NodeId { index: before.styles@.len() as usize };
        assert forall|p: NodeId, i: int|
            self.contains(p) && 0 <= i < self.children_of(p).len() implies {
            let c = #[trigger] self.children_of(p)[i];
            &&& self.contains(c)
            &&& self.parent_of(c) == Some(p)
            &&& self.rank@[c.index as int] < self.rank@[p.index as int]
        } by {
            let c = self.children_of(p)[i];
            if p == id {
                assert(list[i] == c);
                assert(list.contains(c));
                assert(before.contains(c));
                assert(self.parents@[c.index as int] == Some(id));
                assert(before.rank@[c.index as int] < before.rank_bound@);
            } else {
                assert(before.contains(p));
                assert(self.children@[p.index as int] == before.children@[p.index as int]);
                assert(before.children_of(p)[i] == c);
                assert(before.parent_of(c) == Some(p));
                if list.contains(c) {
                    let k = choose|k: int| 0 <= k < list.len() && list[k] == c;
                    assert(before.parent_of(list[k]) is None);
                }
                assert(self.parents@[c.index as int] == Some(p));
            }
        }
        assert forall|c: NodeId| self.contains(c) implies match #[trigger] self.parent_of(c) {
            Some(p) => self.contains(p) && self.children_of(p).contains(c),
            None => true,
        } by {
            if c != id {
                assert(before.contains(c));
                if list.contains(c) {
                    assert(self.parents@[c.index as int] == Some(id));
                } else {
                    assert(self.parents@[c.index as int] == before.parents@[c.index as int]);
                    if before.parent_of(c) is Some {
                        let p = before.parent_of(c)->0;
                        assert(before.contains(p) && before.children_of(p).contains(c));
                        assert(self.children@[p.index as int] == before.children@[p.index as int]);
                    }
                }
            }
        }
        assert forall|p: NodeId| self.contains(p) implies (#[trigger] self.children_of(
            p,
        )).no_duplicates() by {
            if p != id {
                assert(before.contains(p));
                assert(self.children@[p.index as int] == before.children@[p.index as int]);
                assert(before.children_of(p).no_duplicates());
            }
        }
        assert forall|a: NodeId| self.contains(a) implies #[trigger] self.rank@[a.index as int]
            < self.rank_bound@ by {
            if a != id {
                assert(before.rank@[a.index as int] < before.rank_bound@);
            }
        }
    }

    /// The ranks after those of `node` and its ancestors were raised by the bound.
    pub open spec fn raised_ranks(&self, node: NodeId) -> Seq<nat> {
        Seq::new(
            self.rank@.len(),
            |i: int|
                if self.is_ancestor_or_self(NodeId { index: i as usize }, node) {
                    self.rank@[i] + self.rank_bound@
                } else {
                    self.rank@[i]
                },
        )
    }

    /// Everything but the links and the marks is as in `before`.
    pub open spec fn same_nodes(&self, before: &Self) -> bool {
        &&& self.styles == before.styles
        &&& self.measures == before.measures
        &&& self.layouts == before.layouts
        &&& self.measure_calls == before.measure_calls
    }

    /// Raises the ranks of `node` and its ancestors above every other rank.
    fn raise_ranks(&mut self, node: NodeId)
        requires
            old(self).sized(),
        ensures
            final(self).rank@ == old(self).raised_ranks(node),
            final(self).rank_bound@ == old(self).rank_bound@ + old(self).rank_bound@,
            final(self).same_nodes(old(self)),
            final(self).children == old(self).children,
            final(self).parents == old(self).parents,
            final(self).alive == old(self).alive,
            final(self).dirty == old(self).dirty,
            final(self).caches == old(self).caches,
    {
        let ghost raised = self.raised_ranks(node);
        let ghost bound = self.rank_bound@ + self.rank_bound@;
        self.rank = Ghost(raised);
        self.rank_bound = Ghost(bound);
    }

    /// Checks that the nodes in `list` can become children.
    pub fn check_attachable(&self, list: &Vec<NodeId>) -> (r: Result<(), Error>)
        requires
            self.wf(),
        ensures
            r is Ok <==> self.attachable(list@),
            r matches Err(e) ==> if self.all_known(list@) {
                e == Error::ChildAlreadyAttached
            } else {
                exists|k: int| self.first_unknown(list@, k) && e == Error::InvalidNode(list@[k])
            },
    {
        let n = self.styles.len();
        let mut i: usize = 0;
        while i < list.len()
            invariant
                i <= list.len(),
                n == self.styles@.len(),
                self.sized(),
                forall|j: int| 0 <= j < i ==> self.is_node(#[trigger] list@[j]),
            decreases list.len() - i,
        {
            let c = list[i];
            if c.index >= n || !self.alive[c.index] {
                assert(self.first_unknown(list@, i as int));
                return Err(Error::InvalidNode(c));
            }
            i += 1;
        }
        let mut i: usize = 0;
        while i < list.len()
            invariant
                i <= list.len(),
                self.sized(),
                self.all_known(list@),
                forall|j: int| 0 <= j < i ==> self.parent_of(#[trigger] list@[j]) is None,
                forall|j: int, k: int| 0 <= k < j < i ==> list@[k] != list@[j],
            decreases list.len() - i,
        {
            let c = list[i];
            assert(self.is_node(list@[i as int]));
            if self.parents[c.index].is_some() {
                return Err(Error::ChildAlreadyAttached);
            }
            let mut k: usize = 0;
            while k < i
                invariant
                    k <= i,
                    i < list.len(),
                    c == list@[i as int],
                    self.all_known(list@),
                    forall|m: int| 0 <= m < k ==> list@[m] != c,
                decreases i - k,
            {
                if list[k].index == c.index {
                    assert(list@[k as int] == list@[i as int]);
                    return Err(Error::ChildAlreadyAttached);
                }
                k += 1;
            }
            i += 1;
        }
        Ok(())
    }

    /// Creates a node with the given style and children. The children must be
    /// known, without parent and pairwise distinct.
    pub fn new_node(&mut self, style: Style, children: Vec<NodeId>) -> (r: Result<NodeId, Error>)
        requires
            old(self).wf(),
        ensures
            final(self).wf(),
            r is Ok <==> old(self).attachable(children@),
            r matches Ok(id) ==> id.index == old(self).len() && final(self).grown(
                old(self),
                style,
                children@,
            ),
            r matches Err(e) ==> *final(self) == *old(self) && if old(self).all_known(children@) {
                e == Error::ChildAlreadyAttached
            } else {
                exists|k: int|
                    old(self).first_unknown(children@, k) && e == Error::InvalidNode(children@[k])
            },
    {
        match self.check_attachable(&children) {
            Err(e) => {
                return Err(e);
            },
            Ok(()) => {},
        }
        let ghost before = *self;
        let id = NodeId { index: self.styles.len() };
        self.styles.push(style);
        self.measures.push(None);
        self.parents.push(None);
        self.alive.push(true);
        self.dirty.push(true);
        self.layouts.push(None);
        self.caches.push(None);
        self.rank = Ghost(before.rank@.push(before.rank_bound@));
        self.rank_bound = Ghost(before.rank_bound@ + 1);
        set_parents(&mut self.parents, &children, Some(id));
        let ghost list = children@;
        self.children.push(children);
        let total = self.styles.len();
        proof {
            assert(total == before.styles@.len() + 1);
            assert(self.grown(&before, style, list));
            self.lemma_grown_linked(&before, style, list);
        }
        Ok(id)
    }

    /// Replaces the ordered children of `node`. The former children lose their
    /// parent; the new ones must be known, without parent and pairwise distinct,
    /// and none of them may be `node` or above it.
    pub fn set_children(&mut self, node: NodeId, children: Vec<NodeId>) -> (r: Result<(), Error>)
        requires
            old(self).wf(),
            old(self).is_node(node) && old(self).attachable(children@) ==> old(self).none_above(
                children@,
                node,
            ),
        ensures
            final(self).wf(),
            r is Ok <==> old(self).is_node(node) && old(self).attachable(children@),
            r is Ok ==> {
                &&& final(self).relinked(old(self), node, children@)
                &&& final(self).marked_from(old(self), node)
                &&& final(self).same_nodes(old(self))
            },
            r matches Err(e) ==> *final(self) == *old(self) && if !old(self).is_node(node) {
                e == Error::InvalidNode(node)
            } else if old(self).all_known(children@) {
                e == Error::ChildAlreadyAttached
            } else {
                exists|k: int|
                    old(self).first_unknown(children@, k) && e == Error::InvalidNode(children@[k])
            },
    {
        if node.index >= self.styles.len() || !self.alive[node.index] {
            return Err(Error::InvalidNode(node));
        }
        match self.check_attachable(&children) {
            Err(e) => {
                return Err(e);
            },
            Ok(()) => {},
        }
        self.touch(node);
        let ghost mid = *self;
        self.raise_ranks(node);
        proof {
            mid.lemma_children_below(node);
        }
        set_parents(&mut self.parents, &self.children[node.index], None);
        set_parents(&mut self.parents, &children, Some(node));
        let ghost list = children@;
        self.children[node.index] = children;
        proof {
            assert forall|i: int| 0 <= i < list.len() implies mid.parent_of(#[trigger] list[i]) is None
                || mid.parent_of(list[i]) == Some(node) by {}
            assert(self.relinked(&mid, node, list));
            self.lemma_relinked_linked(&mid, node, list);
        }
        Ok(())
    }

    /// Appends `child` to the children of `node`. The child must be without
    /// parent, and may not be `node` or above it.
    pub fn add_child(&mut self, node: NodeId, child: NodeId) -> (r: Result<(), Error>)
        requires
            old(self).wf(),
            old(self).is_node(node) && old(self).is_node(child) ==> !old(self).is_ancestor_or_self(
                child,
                node,
            ),
        ensures
            final(self).wf(),
            r is Ok <==> old(self).is_node(node) && old(self).is_node(child) && old(self).parent_of(
                child,
            ) is None,
            r is Ok ==> {
                &&& final(self).relinked(old(self), node, old(self).children_of(node).push(child))
                &&& final(self).marked_from(old(self), node)
                &&& final(self).same_nodes(old(self))
            },
            r matches Err(e) ==> *final(self) == *old(self) && e == if !old(self).is_node(node) {
                Error::InvalidNode(node)
            } else if !old(self).is_node(child) {
                Error::InvalidNode(child)
            } else {
                Error::ChildAlreadyAttached
            },
    {
        if node.index >= self.styles.len() || !self.alive[node.index] {
            return Err(Error::InvalidNode(node));
        }
        if child.index >= self.styles.len() || !self.alive[child.index] {
            return Err(Error::InvalidNode(child));
        }
        if self.parents[child.index].is_some() {
            return Err(Error::ChildAlreadyAttached);
        }
        self.touch(node);
        let ghost mid = *self;
        let ghost list = mid.children_of(node).push(child);
        self.raise_ranks(node);
        self.children[node.index].push(child);
        self.parents[child.index] = Some(node);
        proof {
            mid.lemma_children_below(node);
            assert(!mid.children_of(node).contains(child));
            assert(list[list.len() - 1] == child);
            assert(list.contains(child));
            assert forall|c: NodeId| mid.contains(c) implies #[trigger] self.parents@[c.index as int]
                == if list.contains(c) {
                Some(node)
            } else if mid.children_of(node).contains(c) {
                None
            } else {
                mid.parents@[c.index as int]
            } by {
                assert(mid.parents@[c.index as int] == mid.parents@[c.index as int]);
                if c != child && list.contains(c) {
                    let k = choose|k: int| 0 <= k < list.len() && list[k] == c;
                    assert(mid.children_of(node)[k] == c);
                }
                if mid.children_of(node).contains(c) {
                    let k = choose|k: int|
                        0 <= k < mid.children_of(node).len() && mid.children_of(node)[k] == c;
                    assert(list[k] == c);
                }
            }
            assert(list[list.len() - 1] == child);
            assert(self.relinked(&mid, node, list));
            assert forall|i: int| 0 <= i < list.len() implies mid.parent_of(#[trigger] list[i]) is None
                || mid.parent_of(list[i]) == Some(node) by {
                if i < list.len() - 1 {
                    assert(mid.children_of(node)[i] == list[i]);
                }
            }
            assert forall|i: int| 0 <= i < list.len() implies !mid.is_ancestor_or_self(
                #[trigger] list[i],
                node,
            ) by {
                if i < list.len() - 1 {
                    assert(mid.children_of(node)[i] == list[i]);
                }
            }
            assert forall|i: int| 0 <= i < list.len() implies mid.contains(#[trigger] list[i]) by {
                if i < list.len() - 1 {
                    assert(mid.children_of(node)[i] == list[i]);
                }
            }
            assert(list.no_duplicates()) by {
                assert forall|i: int, j: int| 0 <= i < list.len() && 0 <= j < list.len() && i != j implies list[i]
                    != list[j] by {
                    if i < list.len() - 1 {
                        assert(mid.children_of(node)[i] == list[i]);
                    }
                    if j < list.len() - 1 {
                        assert(mid.children_of(node)[j] == list[j]);
                    }
                }
            }
            self.lemma_relinked_linked(&mid, node, list);
        }
        Ok(())
    }

    /// Removes the child at position `index` from the children of `node` and
    /// returns it. The child loses its parent and stays in the arena.
    pub fn remove_child_at_index(
        &mut self,
        node: NodeId,
        index: usize,
    ) -> (r: Result<NodeId, Error>)
        requires
            old(self).wf(),
        ensures
            final(self).wf(),
            r is Ok <==> old(self).is_node(node) && index < old(self).children_of(node).len(),
            r matches Ok(c) ==> {
                &&& c == old(self).children_of(node)[index as int]
                &&& final(self).relinked(
                    old(self),
                    node,
                    old(self).children_of(node).remove(index as int),
                )
                &&& final(self).marked_from(old(self), node)
                &&& final(self).same_nodes(old(self))
            },
            r matches Err(e) ==> *final(self) == *old(self) && e == if !old(self).is_node(node) {
                Error::InvalidNode(node)
            } else {
                Error::ChildNotFound
            },
    {
        if node.index >= self.styles.len() || !self.alive[node.index] {
            return Err(Error::InvalidNode(node));
        }
        if index >= self.children[node.index].len() {
            return Err(Error::ChildNotFound);
        }
        self.touch(node);
        let ghost mid = *self;
        let ghost list = mid.children_of(node).remove(index as int);
        self.raise_ranks(node);
        let child = self.children[node.index].remove(index);
        proof {
            mid.lemma_children_below(node);
            assert(mid.children_of(node)[index as int] == child);
        }
        self.parents[child.index] = None;
        proof {
            lemma_remove_distinct(mid.children_of(node), index as int);
            assert forall|c: NodeId| mid.contains(c) implies #[trigger] self.parents@[c.index as int]
                == if list.contains(c) {
                Some(node)
            } else if mid.children_of(node).contains(c) {
                None
            } else {
                mid.parents@[c.index as int]
            } by {
                assert(mid.parents@[c.index as int] == mid.parents@[c.index as int]);
                if list.contains(c) {
                    let k = choose|k: int|
                        0 <= k < mid.children_of(node).len() && mid.children_of(node)[k] == c;
                    assert(mid.parent_of(mid.children_of(node)[k]) == Some(node));
                }
            }
            assert(self.relinked(&mid, node, list));
            assert forall|i: int| 0 <= i < list.len() implies mid.contains(#[trigger] list[i])
                && mid.parent_of(list[i]) == Some(node) && !mid.is_ancestor_or_self(list[i], node) by {
                assert(list.contains(list[i]));
                let k = choose|k: int|
                    0 <= k < mid.children_of(node).len() && mid.children_of(node)[k] == list[i];
                assert(mid.parent_of(mid.children_of(node)[k]) == Some(node));
            }
            self.lemma_relinked_linked(&mid, node, list);
        }
        Ok(child)
    }

    /// Removes `child` from the children of `node` and returns it.
    pub fn remove_child(&mut self, node: NodeId, child: NodeId) -> (r: Result<NodeId, Error>)
        requires
            old(self).wf(),
        ensures
            final(self).wf(),
            r is Ok <==> old(self).is_node(node) && old(self).children_of(node).contains(child),
            r matches Ok(c) ==> {
                &&& c == child
                &&& final(self).relinked(
                    old(self),
                    node,
                    old(self).children_of(node).remove(old(self).children_of(node).index_of(child)),
                )
                &&& final(self).marked_from(old(self), node)
                &&& final(self).same_nodes(old(self))
            },
            r matches Err(e) ==> *final(self) == *old(self) && e == if !old(self).is_node(node) {
                Error::InvalidNode(node)
            } else {
                Error::ChildNotFound
            },
    {
        if node.index >= self.styles.len() || !self.alive[node.index] {
            return Err(Error::InvalidNode(node));
        }
        let ghost before = *self;
        let count = self.children[node.index].len();
        let mut i: usize = 0;
        while i < count
            invariant
                i <= count,
                *self == before,
                *old(self) == before,
                self.wf(),
                self.contains(node),
                count == self.children_of(node).len(),
                forall|k: int| 0 <= k < i ==> self.children_of(node)[k] != child,
            decreases count - i,
        {
            if self.children[node.index][i].index == child.index {
                proof {
                    self.lemma_children_below(node);
                    let s = self.children_of(node);
                    assert(s[i as int] == child);
                    assert(s.contains(child));
                    let j = s.index_of(child);
                    assert(0 <= j < s.len() && s[j] == child);
                    assert(s.no_duplicates());
                    assert(j == i);
                }
                return self.remove_child_at_index(node, i);
            }
            i += 1;
        }
        Err(Error::ChildNotFound)
    }

    /// Puts `child` in the place of the child at position `index` of `node` and
    /// returns the child that was there, which loses its parent. The new child
    /// must be without parent, and may not be `node` or above it.
    pub fn replace_child_at_index(
        &mut self,
        node: NodeId,
        index: usize,
        child: NodeId,
    ) -> (r: Result<NodeId, Error>)
        requires
            old(self).wf(),
            old(self).is_node(node) && old(self).is_node(child) ==> !old(self).is_ancestor_or_self(
                child,
                node,
            ),
        ensures
            final(self).wf(),
            r is Ok <==> old(self).is_node(node) && old(self).is_node(child) && old(self).parent_of(
                child,
            ) is None && index < old(self).children_of(node).len(),
            r matches Ok(c) ==> {
                &&& c == old(self).children_of(node)[index as int]
                &&& final(self).relinked(
                    old(self),
                    node,
                    old(self).children_of(node).update(index as int, child),
                )
                &&& final(self).marked_from(old(self), node)
                &&& final(self).same_nodes(old(self))
            },
            r matches Err(e) ==> *final(self) == *old(self) && e == if !old(self).is_node(node) {
                Error::InvalidNode(node)
            } else if !old(self).is_node(child) {
                Error::InvalidNode(child)
            } else if old(self).parent_of(child) is Some {
                Error::ChildAlreadyAttached
            } else {
                Error::ChildNotFound
            },
    {
        if node.index >= self.styles.len() || !self.alive[node.index] {
            return Err(Error::InvalidNode(node));
        }
        if child.index >= self.styles.len() || !self.alive[child.index] {
            return Err(Error::InvalidNode(child));
        }
        if self.parents[child.index].is_some() {
            return Err(Error::ChildAlreadyAttached);
        }
        if index >= self.children[node.index].len() {
            return Err(Error::ChildNotFound);
        }
        self.touch(node);
        let ghost mid = *self;
        let ghost list = mid.children_of(node).update(index as int, child);
        self.raise_ranks(node);
        let former = self.children[node.index][index];
        self.children[node.index][index] = child;
        proof {
            mid.lemma_children_below(node);
            assert(mid.children_of(node)[index as int] == former);
        }
        self.parents[former.index] = None;
        self.parents[child.index] = Some(node);
        proof {
            assert(!mid.children_of(node).contains(child));
            lemma_update_distinct(mid.children_of(node), index as int, child);
            assert forall|c: NodeId| mid.contains(c) implies #[trigger] self.parents@[c.index as int]
                == if list.contains(c) {
                Some(node)
            } else if mid.children_of(node).contains(c) {
                None
            } else {
                mid.parents@[c.index as int]
            } by {
                assert(mid.parents@[c.index as int] == mid.parents@[c.index as int]);
                if list.contains(c) && c != child {
                    let k = choose|k: int|
                        0 <= k < mid.children_of(node).len() && mid.children_of(node)[k] == c;
                    assert(mid.parent_of(mid.children_of(node)[k]) == Some(node));
                }
            }
            assert(self.relinked(&mid, node, list));
            assert forall|i: int| 0 <= i < list.len() implies mid.contains(#[trigger] list[i]) && (
            mid.parent_of(list[i]) is None || mid.parent_of(list[i]) == Some(node))
                && !mid.is_ancestor_or_self(list[i], node) by {
                assert(list.contains(list[i]));
                if list[i] != child {
                    let k = choose|k: int|
                        0 <= k < mid.children_of(node).len() && mid.children_of(node)[k] == list[i];
                    assert(mid.parent_of(mid.children_of(node)[k]) == Some(node));
                }
            }
            self.lemma_relinked_linked(&mid, node, list);
        }
        Ok(former)
    }

    /// The children of a node are known, have it as parent, and are not above it.
    pub proof fn lemma_children_below(&self, node: NodeId)
        requires
            self.wf(),
            self.contains(node),
        ensures
            forall|i: int|
                0 <= i < self.children_of(node).len() ==> {
                    let c = #[trigger] self.children_of(node)[i];
                    &&& self.contains(c)
                    &&& self.parent_of(c) == Some(node)
                    &&& !self.is_ancestor_or_self(c, node)
                    &&& self.rank@[c.index as int] < self.rank@[node.index as int]
                },
            self.children_of(node).no_duplicates(),
    {
        reveal(links_ok);
        assert forall|i: int| 0 <= i < self.children_of(node).len() implies {
            let c = #[trigger] self.children_of(node)[i];
            &&& self.contains(c)
            &&& self.parent_of(c) == Some(node)
            &&& !self.is_ancestor_or_self(c, node)
            &&& self.rank@[c.index as int] < self.rank@[node.index as int]
        } by {
            let c = self.children_of(node)[i];
            if self.is_ancestor_or_self(c, node) {
                self.lemma_ancestor_ranked(c, node);
            }
        }
    }
}

/// Taking one element out of a sequence without repetition leaves a sequence
/// without repetition that holds every other element and not that one.
pub proof fn lemma_remove_distinct(s: Seq<NodeId>, i: int)
    requires
        s.no_duplicates(),
        0 <= i < s.len(),
    ensures
        s.remove(i).no_duplicates(),
        !s.remove(i).contains(s[i]),
        forall|x: NodeId| s.contains(x) && x != s[i] ==> #[trigger] s.remove(i).contains(x),
        forall|x: NodeId| #[trigger] s.remove(i).contains(x) ==> s.contains(x),
{
    let t = s.remove(i);
    assert forall|j: int| 0 <= j < t.len() implies #[trigger] t[j] == s[if j < i {
        j
    } else {
        j + 1
    }] by {}
    assert forall|x: NodeId| s.contains(x) && x != s[i] implies #[trigger] t.contains(x) by {
        let k = choose|k: int| 0 <= k < s.len() && s[k] == x;
        if k < i {
            assert(t[k] == x);
        } else {
            assert(t[k - 1] == x);
        }
    }
}

/// Putting a new element in place of one element of a sequence without
/// repetition leaves a sequence without repetition that holds the new element
/// and every other element, and not the one replaced.
pub proof fn lemma_update_distinct(s: Seq<NodeId>, i: int, y: NodeId)
    requires
        s.no_duplicates(),
        0 <= i < s.len(),
        !s.contains(y),
    ensures
        s.update(i, y).no_duplicates(),
        s.update(i, y).contains(y),
        !s.update(i, y).contains(s[i]),
        forall|x: NodeId| s.contains(x) && x != s[i] ==> #[trigger] s.update(i, y).contains(x),
        forall|x: NodeId| #[trigger] s.update(i, y).contains(x) ==> x == y || s.contains(x),
{
    let t = s.update(i, y);
    assert(t[i] == y);
    assert forall|x: NodeId| s.contains(x) && x != s[i] implies #[trigger] t.contains(x) by {
        let k = choose|k: int| 0 <= k < s.len() && s[k] == x;
        assert(t[k] == x);
    }
    assert forall|j: int, k: int| 0 <= j < t.len() && 0 <= k < t.len() && j != k implies t[j]
        != t[k] by {
        if j != i && k != i {
            assert(s[j] != s[k]);
        } else if j == i {
            assert(s[k] == t[k]);
        } else {
            assert(s[j] == t[j]);
        }
    }
}

/// Writes `value` as the parent of every node in `list`.
pub(crate) fn set_parents(
    parents: &mut Vec<Option<NodeId>>,
    list: &Vec<NodeId>,
    value: Option<NodeId>,
)
    requires
        forall|i: int| 0 <= i < list@.len() ==> (#[trigger] list@[i]).index < old(parents)@.len(),
    ensures
        final(parents)@.len() == old(parents)@.len(),
        forall|c: NodeId|
            c.index < old(parents)@.len() ==> #[trigger] final(parents)@[c.index as int] == if list@.contains(
                c,
            ) {
                value
            } else {
                old(parents)@[c.index as int]
            },
{
    let ghost before = parents@;
    let mut i: usize = 0;
    while i < list.len()
        invariant
            i <= list.len(),
            parents@.len() == before.len(),
            forall|k: int| 0 <= k < list@.len() ==> (#[trigger] list@[k]).index < before.len(),
            forall|c: NodeId|
                c.index < before.len() ==> #[trigger] parents@[c.index as int] == if list@.subrange(
                    0,
                    i as int,
                ).contains(c) {
                    value
                } else {
                    before[c.index as int]
                },
        decreases list.len() - i,
    {
        let c = list[i];
        let ghost prev = parents@;
        parents[c.index] = value;
        proof {
            let done = list@.subrange(0, i as int);
            let next = list@.subrange(0, i as int + 1);
            assert(next[i as int] == c);
            assert forall|d: NodeId| d.index < before.len() implies #[trigger] parents@[d.index as int]
                == if next.contains(d) {
                value
            } else {
                before[d.index as int]
            } by {
                assert(prev[d.index as int] == if done.contains(d) {
                    value
                } else {
                    before[d.index as int]
                });
                if done.contains(d) {
                    let k = choose|k: int| 0 <= k < done.len() && done[k] == d;
                    assert(next[k] == d);
                }
                if next.contains(d) && d != c {
                    let k = choose|k: int| 0 <= k < next.len() && next[k] == d;
                    assert(done[k] == d);
                }
            }
        }
        i += 1;
    }
    assert(list@.subrange(0, i as int) == list@);
}

} // verus!
