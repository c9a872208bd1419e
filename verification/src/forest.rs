//! The arena of nodes and its mutation interface.

use crate::geometry::Size;
use crate::number::Number;
use crate::result::{Cache, Layout};
use crate::scalar::Scalar;
use crate::style::Style;
use vstd::prelude::*;

verus! {

/// Handle of a node: its slot in the arena.
#[derive(Clone, Copy, Debug, PartialEq, Eq, Structural, Hash)]
pub struct NodeId {
    pub index: usize,
}

/// Failure reported by a measurer.
#[derive(Clone, Copy, Debug, PartialEq, Eq, Structural)]
pub struct MeasureError {}

/// Why an operation on the forest failed.
#[derive(Clone, Copy, Debug, PartialEq, Eq, Structural)]
pub enum Error {
    /// The handle names no node of this forest.
    InvalidNode(NodeId),
    /// A node that was to become a child already has a parent, or was named twice.
    ChildAlreadyAttached,
    /// The node to remove is not a child of the given parent.
    ChildNotFound,
    /// No layout has been computed for the node.
    LayoutNotComputed,
    /// A measurer failed.
    Measure,
}

/// Intrinsic content size of a leaf, as a function of the space on offer.
pub trait MeasureFunc {
    /// The answer for each constraint: a measurer is a pure function. An
    /// implementation states the function that its `measure` computes; the
    /// one stated here is that of a measurer that always fails.
    open spec fn measured(&self, available: Size<Number>) -> Result<Size<Scalar>, MeasureError> {
        Err(MeasureError {  })
    }

    fn measure(&self, available: Size<Number>) -> (r: Result<Size<Scalar>, MeasureError>)
        ensures
            r == self.measured(available),
    ;
}

/// A measurer for content whose size does not depend on the space on offer.
#[derive(Clone, Copy, Debug)]
pub struct FixedMeasure {
    pub size: Size<Scalar>,
}

impl MeasureFunc for FixedMeasure {
    open spec fn measured(&self, available: Size<Number>) -> Result<Size<Scalar>, MeasureError> {
        Ok(self.size)
    }

    fn measure(&self, available: Size<Number>) -> (r: Result<Size<Scalar>, MeasureError>) {
        Ok(self.size)
    }
}

/// Whether `a` is `n` or lies on the chain of parents above `n`.
pub open spec fn on_parent_chain(
    parents: Seq<Option<NodeId>>,
    rank: Seq<nat>,
    bound: nat,
    a: NodeId,
    n: NodeId,
) -> bool
    decreases bound - rank[n.index as int],
{
    a == n || (n.index < parents.len() && n.index < rank.len() && match parents[n.index as int] {
        Some(p) => p.index < rank.len() && rank[n.index as int] < rank[p.index as int]
            && rank[p.index as int] < bound && on_parent_chain(parents, rank, bound, a, p),
        None => false,
    })
}

/// Whether the links among `n` nodes are consistent: each child names its
/// parent and each parent lists its child, exactly once, ranks fall from
/// parent to child, and `bound` lies above every rank.
#[verifier::opaque]
pub open spec fn links_ok(
    children: Seq<Vec<NodeId>>,
    parents: Seq<Option<NodeId>>,
    rank: Seq<nat>,
    bound: nat,
    n: nat,
) -> bool {
    &&& forall|p: NodeId, i: int|
        p.index < n && 0 <= i < children[p.index as int]@.len() ==> {
            let c = #[trigger] children[p.index as int]@[i];
            &&& c.index < n
            &&& parents[c.index as int] == Some(p)
            &&& rank[c.index as int] < rank[p.index as int]
        }
    &&& forall|c: NodeId|
        c.index < n ==> match #[trigger] parents[c.index as int] {
            Some(p) => p.index < n && children[p.index as int]@.contains(c),
            None => true,
        }
    &&& forall|p: NodeId| p.index < n ==> (#[trigger] children[p.index as int]@).no_duplicates()
    &&& forall|a: NodeId| a.index < n ==> #[trigger] rank[a.index as int] < bound
}

/// An arena of styled nodes with parent and child links, and for each node the
/// state that layout keeps: a dirty flag, the last layout and a remembered result.
pub struct Forest<M: MeasureFunc> {
    pub styles: Vec<Style>,
    pub measures: Vec<Option<M>>,
    pub children: Vec<Vec<NodeId>>,
    pub parents: Vec<Option<NodeId>>,
    /// Whether the node is part of the forest: a removed node is not.
    pub alive: Vec<bool>,
    pub dirty: Vec<bool>,
    pub layouts: Vec<Option<Layout>>,
    pub caches: Vec<Option<Cache>>,
    /// How often a measurer has been asked.
    pub measure_calls: u64,
    /// For each node a number above those of its children: the links form no cycle.
    pub rank: Ghost<Seq<nat>>,
    /// A number above every rank.
    pub rank_bound: Ghost<nat>,
}

impl<M: MeasureFunc> Forest<M> {
    /// Number of nodes.
    #[verifier::inline]
    pub open spec fn len(&self) -> nat {
        self.styles@.len()
    }

    /// Whether `id` names a slot of the arena, be its node removed or not.
    #[verifier::inline]
    pub open spec fn contains(&self, id: NodeId) -> bool {
        id.index < self.len()
    }

    /// Whether `id` names a node of this forest that has not been removed.
    #[verifier::inline]
    pub open spec fn is_node(&self, id: NodeId) -> bool {
        id.index < self.styles@.len() && self.alive@[id.index as int]
    }

    /// The ordered children of `id`.
    #[verifier::inline]
    pub open spec fn children_of(&self, id: NodeId) -> Seq<NodeId> {
        self.children@[id.index as int]@
    }

    /// The parent of `id`, if it has one.
    #[verifier::inline]
    pub open spec fn parent_of(&self, id: NodeId) -> Option<NodeId> {
        self.parents@[id.index as int]
    }

    /// Whether `id` is marked dirty.
    #[verifier::inline]
    pub open spec fn is_dirty(&self, id: NodeId) -> bool {
        self.dirty@[id.index as int]
    }

    /// What is remembered for `id`.
    #[verifier::inline]
    pub open spec fn cache_of(&self, id: NodeId) -> Option<Cache> {
        self.caches@[id.index as int]
    }

    /// The layout of `id`, if one was computed.
    #[verifier::inline]
    pub open spec fn layout_of(&self, id: NodeId) -> Option<Layout> {
        self.layouts@[id.index as int]
    }

    /// The style of `id`.
    #[verifier::inline]
    pub open spec fn style_of(&self, id: NodeId) -> Style {
        self.styles@[id.index as int]
    }

    /// Whether `a` is `n` or an ancestor of `n`.
    pub open spec fn is_ancestor_or_self(&self, a: NodeId, n: NodeId) -> bool {
        on_parent_chain(self.parents@, self.rank@, self.rank_bound@, a, n)
    }

    /// Every vector has one entry per node.
    pub open spec fn sized(&self) -> bool {
        let n = self.styles@.len();
        &&& self.measures@.len() == n
        &&& self.children@.len() == n
        &&& self.parents@.len() == n
        &&& self.alive@.len() == n
        &&& self.dirty@.len() == n
        &&& self.layouts@.len() == n
        &&& self.caches@.len() == n
        &&& self.rank@.len() == n
    }

    /// The links are consistent: each child names its parent and each parent
    /// lists its child, exactly once, and ranks fall from parent to child.
    pub open spec fn linked(&self) -> bool {
        links_ok(self.children@, self.parents@, self.rank@, self.rank_bound@, self.styles@.len())
    }

    /// A dirty node remembers no result.
    pub open spec fn caches_clean(&self) -> bool {
        forall|a: NodeId|
            #![trigger self.dirty@[a.index as int]]
            #![trigger self.caches@[a.index as int]]
            self.contains(a) && self.dirty@[a.index as int] ==> self.caches@[a.index as int] is None
    }

    /// A removed node has neither parent nor children.
    pub open spec fn isolated(&self) -> bool {
        forall|a: NodeId|
            #![trigger self.alive@[a.index as int]]
            #![trigger self.parents@[a.index as int]]
            #![trigger self.children@[a.index as int]]
            self.contains(a) && !self.alive@[a.index as int] ==> self.parents@[a.index as int] is None
                && self.children@[a.index as int]@.len() == 0
    }

    /// What a node with children remembers has each definite size of the
    /// request that it was found for.
    pub open spec fn caches_true(&self) -> bool {
        forall|a: NodeId|
            #![trigger self.caches@[a.index as int]]
            #![trigger self.children@[a.index as int]]
            self.contains(a) && self.children@[a.index as int]@.len() > 0 ==> match self.caches@[a.index as int] {
                Some(cache) => cache.keeps_request(),
                None => true,
            }
    }

    /// The invariant of the forest.
    pub open spec fn wf(&self) -> bool {
        &&& self.sized()
        &&& self.linked()
        &&& self.isolated()
        &&& self.caches_clean()
        &&& self.caches_true()
    }

    /// An empty forest.
    pub fn new() -> (r: Self)
        ensures
            r.wf(),
            r.len() == 0,
            r.measure_calls == 0,
    {
        reveal(links_ok);
        Forest {
            styles: Vec::new(),
            measures: Vec::new(),
            children: Vec::new(),
            parents: Vec::new(),
            alive: Vec::new(),
            dirty: Vec::new(),
            layouts: Vec::new(),
            caches: Vec::new(),
            measure_calls: 0,
            rank: Ghost(Seq::empty()),
            rank_bound: Ghost(0),
        }
    }

    /// Number of slots in the arena: of nodes ever created.
    pub fn node_count(&self) -> (r: usize)
        ensures
            r == self.len(),
    {
        self.styles.len()
    }

    /// Whether the node is dirty: its style, measurer or subtree changed since
    /// it was last laid out.
    pub fn dirty(&self, node: NodeId) -> (r: Result<bool, Error>)
        requires
            self.wf(),
        ensures
            r == if self.is_node(node) {
                Ok::<bool, Error>(self.is_dirty(node))
            } else {
                Err::<bool, Error>(Error::InvalidNode(node))
            },
    {
        if node.index < self.styles.len() && self.alive[node.index] {
            Ok(self.dirty[node.index])
        } else {
            Err(Error::InvalidNode(node))
        }
    }

    /// The style of the node.
    pub fn style(&self, node: NodeId) -> (r: Result<Style, Error>)
        requires
            self.wf(),
        ensures
            r == if self.is_node(node) {
                Ok::<Style, Error>(self.style_of(node))
            } else {
                Err::<Style, Error>(Error::InvalidNode(node))
            },
    {
        if node.index < self.styles.len() && self.alive[node.index] {
            Ok(self.styles[node.index])
        } else {
            Err(Error::InvalidNode(node))
        }
    }

    /// The parent of the node.
    pub fn parent(&self, node: NodeId) -> (r: Result<Option<NodeId>, Error>)
        requires
            self.wf(),
        ensures
            r == if self.is_node(node) {
                Ok::<Option<NodeId>, Error>(self.parent_of(node))
            } else {
                Err::<Option<NodeId>, Error>(Error::InvalidNode(node))
            },
    {
        if node.index < self.styles.len() && self.alive[node.index] {
            Ok(self.parents[node.index])
        } else {
            Err(Error::InvalidNode(node))
        }
    }

    /// The layout that the last run gave the node.
    pub fn layout(&self, node: NodeId) -> (r: Result<Layout, Error>)
        requires
            self.wf(),
        ensures
            r == if !self.is_node(node) {
                Err::<Layout, Error>(Error::InvalidNode(node))
            } else {
                match self.layout_of(node) {
                    Some(l) => Ok::<Layout, Error>(l),
                    None => Err::<Layout, Error>(Error::LayoutNotComputed),
                }
            },
    {
        if node.index < self.styles.len() && self.alive[node.index] {
            match self.layouts[node.index] {
                Some(l) => Ok(l),
                None => Err(Error::LayoutNotComputed),
            }
        } else {
            Err(Error::InvalidNode(node))
        }
    }

    /// The ordered children of the node.
    pub fn children(&self, node: NodeId) -> (r: Result<&Vec<NodeId>, Error>)
        requires
            self.wf(),
        ensures
            self.is_node(node) <==> r is Ok,
            r matches Ok(list) ==> list@ == self.children_of(node),
            r matches Err(e) ==> e == Error::InvalidNode(node),
    {
        if node.index < self.styles.len() && self.alive[node.index] {
            Ok(&self.children[node.index])
        } else {
            Err(Error::InvalidNode(node))
        }
    }

    /// Number of children of the node.
    pub fn child_count(&self, node: NodeId) -> (r: Result<usize, Error>)
        requires
            self.wf(),
        ensures
            r == if self.is_node(node) {
                Ok::<usize, Error>(self.children_of(node).len() as usize)
            } else {
                Err::<usize, Error>(Error::InvalidNode(node))
            },
    {
        if node.index < self.styles.len() && self.alive[node.index] {
            Ok(self.children[node.index].len())
        } else {
            Err(Error::InvalidNode(node))
        }
    }

    /// Whether `a` is `n` or one of its ancestors.
    pub fn ancestor_or_self(&self, a: NodeId, n: NodeId) -> (r: bool)
        requires
            self.wf(),
            self.contains(n),
        ensures
            r == self.is_ancestor_or_self(a, n),
    {
        let mut cur = n;
        loop
            invariant
                self.wf(),
                self.contains(cur),
                self.is_ancestor_or_self(a, n) == self.is_ancestor_or_self(a, cur),
            decreases self.rank_bound@ - self.rank@[cur.index as int],
        {
            if cur.index == a.index {
                return true;
            }
            match self.parents[cur.index] {
                Some(p) => {
                    proof {
                        self.lemma_parent_ranked(cur);
                    }
                    cur = p;
                },
                None => {
                    return false;
                },
            }
        }
    }

    /// A node's parent is a node of the forest, of higher rank.
    pub proof fn lemma_parent_ranked(&self, c: NodeId)
        requires
            self.wf(),
            self.contains(c),
            self.parent_of(c) is Some,
        ensures
            self.contains(self.parent_of(c)->0),
            self.rank@[c.index as int] < self.rank@[self.parent_of(c)->0.index as int],
            self.rank@[self.parent_of(c)->0.index as int] < self.rank_bound@,
            self.children_of(self.parent_of(c)->0).contains(c),
    {
        reveal(links_ok);
        let p = self.parent_of(c)->0;
        let i = choose|i: int| 0 <= i < self.children_of(p).len() && self.children_of(p)[i] == c;
        assert(self.children_of(p)[i] == c);
    }
}

} // verus!
