//! Bounding volume hierarchy construction: the strategy choice, the build
//! tree, and its flattening into the array that traversal walks.

use vstd::prelude::*;
use crate::geometry::bbox::BBox3;
use crate::geometry::coord::Coord;

verus! {

/// BVH construction strategy.
#[derive(Copy, Clone, Debug, PartialEq, Eq)]
pub enum BVHStrategy {
    /// splitting by surface area heuristics
    SAH,
    /// splitting by middle count
    MiddleCount,
    /// splitting by midpoint of the centroid bound
    MidPoint,
}

/// A node of the flattened hierarchy.
#[derive(Copy, Clone, Debug, PartialEq, Eq)]
pub struct LinearNode<T> {
    pub bound: BBox3<T>,
    /// `len == 0` means interior node
    pub len: usize,
    /// if leaf, means offset into the components array;
    /// if interior, means offset to the second child
    pub offset: usize,
    pub split_axis: usize,
}

/// A node of the hierarchy while it is built.
pub struct BuildNode<T> {
    pub bound: BBox3<T>,
    /// the two children and the split axis of an interior node
    pub childs: Option<(Box<BuildNode<T>>, Box<BuildNode<T>>, usize)>,
    /// if leaf, means offset into the components array;
    /// if interior, means offset to the second child in node array
    pub offset: usize,
    /// if leaf, means length into the components array;
    /// if interior, means length in node array
    pub len: usize,
}

impl<T> BuildNode<T> {
    /// The number of nodes in the subtree.
    pub open spec fn count(self) -> nat
        decreases self,
    {
        match self.childs {
            None => 1,
            Some((c0, c1, _)) => 1 + c0.count() + c1.count(),
        }
    }

    /// The subtree is as `to_leaf` and `to_interior` build it: leaves cover
    /// at least one component, and an interior node records its subtree's
    /// size and the distance to its second child.
    pub open spec fn wf(self) -> bool
        decreases self,
    {
        match self.childs {
            None => self.len > 0,
            Some((c0, c1, _)) => {
                &&& c0.wf()
                &&& c1.wf()
                &&& self.len == self.count()
                &&& self.offset == c0.count() + 1
            },
        }
    }

    /// The flattened node for this node alone.
    pub open spec fn linear(self) -> LinearNode<T> {
        match self.childs {
            Some((_, _, split)) => LinearNode {
                bound: self.bound,
                len: 0,
                offset: self.offset,
                split_axis: split,
            },
            None => LinearNode { bound: self.bound, len: self.len, offset: self.offset, split_axis: 4 },
        }
    }

    /// The subtree in pre-order, first child before second child.
    pub open spec fn preorder(self) -> Seq<LinearNode<T>>
        decreases self,
    {
        match self.childs {
            None => seq![self.linear()],
            Some((c0, c1, _)) => seq![self.linear()] + c0.preorder() + c1.preorder(),
        }
    }

    /// Test whether this is a leaf.
    pub fn is_leaf(&self) -> (r: bool)
        ensures
            r == (self.childs is None),
    {
        self.childs.is_none()
    }

    /// The number of nodes in the subtree, as recorded.
    pub fn node_length(&self) -> (r: usize)
        ensures
            r == (if self.childs is None { 1 } else { self.len as int }),
            self.wf() ==> r == self.count(),
    {
        if self.is_leaf() {
            1
        } else {
            self.len
        }
    }

    /// Turn the node into a leaf over `len` components from `offset`.
    pub fn to_leaf(&mut self, offset: usize, len: usize, bound: BBox3<T>)
        ensures
            final(self).bound == bound,
            final(self).offset == offset,
            final(self).len == len,
            final(self).childs is None,
            len > 0 ==> final(self).wf(),
    {
        self.bound = bound;
        self.offset = offset;
        self.len = len;
        self.childs = None;
    }
}

impl<T: Coord> BuildNode<T> {
    /// Turn the node into an interior node over the two subtrees, split
    /// along `axis`; its bound is the union of theirs.
    pub fn to_interior(&mut self, child0: Box<BuildNode<T>>, child1: Box<BuildNode<T>>, axis: usize)
        requires
            child0.wf(),
            child1.wf(),
            child0.count() + child1.count() + 1 <= usize::MAX,
        ensures
            final(self).bound@ == child0.bound@.union(child1.bound@),
            final(self).childs == Some((child0, child1, axis)),
            final(self).offset == child0.count() + 1,
            final(self).len == child0.count() + child1.count() + 1,
            final(self).wf(),
    {
        self.bound = child0.bound.union(&child1.bound);
        let n0 = child0.node_length();
        let n1 = child1.node_length();
        self.offset = n0 + 1;
        self.len = n0 + n1 + 1;
        self.childs = Some((child0, child1, axis));
    }
}

/// The pre-order of the nodes on a stack, top first.
pub open spec fn stack_preorder<T>(s: Seq<&BuildNode<T>>) -> Seq<LinearNode<T>>
    decreases s.len(),
{
    if s.len() == 0 {
        seq![]
    } else {
        s.last().preorder() + stack_preorder(s.drop_last())
    }
}

proof fn lemma_preorder_len<T>(t: BuildNode<T>)
    ensures
        t.preorder().len() == t.count(),
    decreases t,
{
    if let Some((c0, c1, _)) = t.childs {
        lemma_preorder_len(*c0);
        lemma_preorder_len(*c1);
    }
}

impl<T> BuildNode<T> {
    /// The subtree whose root stands at position `k` of the pre-order.
    pub open spec fn subtree_at(self, k: int) -> BuildNode<T>
        decreases self,
    {
        if k <= 0 {
            self
        } else {
            match self.childs {
                None => self,
                Some((c0, c1, _)) => if k <= c0.count() {
                    c0.subtree_at(k - 1)
                } else {
                    c1.subtree_at(k - 1 - c0.count())
                },
            }
        }
    }
}

/// The flattened layout of a well-formed tree is what traversal relies on:
/// position `k` holds the root of the subtree at `k`; an interior node's
/// first child stands right after it and its second child `offset`
/// positions after it, both inside the array; and only interior nodes have
/// `len == 0`.
pub proof fn lemma_flat_layout<T>(t: BuildNode<T>, k: int)
    requires
        t.wf(),
        0 <= k < t.count(),
    ensures
        t.preorder().len() == t.count(),
        t.preorder()[k] == t.subtree_at(k).linear(),
        t.subtree_at(k).wf(),
        k + t.subtree_at(k).count() <= t.count(),
        (t.preorder()[k].len == 0) == (t.subtree_at(k).childs is Some),
        t.subtree_at(k).childs matches Some((c0, c1, _)) ==> {
            &&& k + 1 < t.count()
            &&& t.subtree_at(k + 1) == *c0
            &&& k + t.subtree_at(k).offset < t.count()
            &&& t.subtree_at(k + t.subtree_at(k).offset) == *c1
        },
    decreases t,
{
    lemma_preorder_len(t);
    match t.childs {
        None => {},
        Some((c0, c1, _)) => {
            lemma_preorder_len(*c0);
            lemma_preorder_len(*c1);
            let p = t.preorder();
            assert(p == seq![t.linear()] + c0.preorder() + c1.preorder());
            if k == 0 {
                assert(c0.subtree_at(0) == *c0);
                assert(c1.subtree_at(0) == *c1);
            } else if k <= c0.count() {
                lemma_flat_layout(*c0, k - 1);
                assert(p[k] == c0.preorder()[k - 1]);
            } else {
                let j = k - 1 - c0.count();
                lemma_flat_layout(*c1, j);
                assert(p[k] == c1.preorder()[j]);
            }
        },
    }
}

/// Each position of the pre-order carries the node it stands for: the
/// entry at `k` has the bound and the offset of the subtree rooted at `k`;
/// a leaf keeps its length and gets split axis 4, an interior node gets
/// length 0 and its own split axis. The first entry is the root itself.
pub proof fn lemma_preorder_node<T>(t: BuildNode<T>, k: int)
    requires
        0 <= k < t.count(),
    ensures
        t.preorder().len() == t.count(),
        t.subtree_at(0) == t,
        t.preorder()[k].bound == t.subtree_at(k).bound,
        t.preorder()[k].offset == t.subtree_at(k).offset,
        t.subtree_at(k).childs is None ==> t.preorder()[k].len == t.subtree_at(k).len
            && t.preorder()[k].split_axis == 4,
        t.subtree_at(k).childs matches Some((_, _, a)) ==> t.preorder()[k].len == 0
            && t.preorder()[k].split_axis == a,
    decreases t,
{
    lemma_preorder_len(t);
    match t.childs {
        None => {},
        Some((c0, c1, _)) => {
            lemma_preorder_len(*c0);
            lemma_preorder_len(*c1);
            let p = t.preorder();
            assert(p == seq![t.linear()] + c0.preorder() + c1.preorder());
            if k == 0 {
            } else if k <= c0.count() {
                lemma_preorder_node(*c0, k - 1);
                assert(p[k] == c0.preorder()[k - 1]);
            } else {
                let j = k - 1 - c0.count();
                lemma_preorder_node(*c1, j);
                assert(p[k] == c1.preorder()[j]);
            }
        },
    }
}

impl<T: Copy> BuildNode<T> {
    /// Flatten the tree into an array, in pre-order: each interior node is
    /// followed by its first subtree, then its second subtree.
    pub fn flatten(&self, total_nodes: usize) -> (r: Vec<LinearNode<T>>)
        ensures
            r@ == self.preorder(),
            r.len() == self.count(),
            r@[0].bound == self.bound,
            forall|k: int|
                0 <= k < r.len() ==> #[trigger] r@[k].bound == self.subtree_at(k).bound
                    && r@[k].offset == self.subtree_at(k).offset,
    {
        let mut ret: Vec<LinearNode<T>> = Vec::new();
        let mut stack: Vec<&BuildNode<T>> = Vec::new();
        stack.push(self);
        proof {
            lemma_preorder_len(*self);
            assert(stack@.drop_last() =~= Seq::<&BuildNode<T>>::empty());
            assert(stack_preorder(stack@.drop_last()) =~= Seq::<LinearNode<T>>::empty());
            assert(stack_preorder(stack@) =~= self.preorder());
        }
        while stack.len() > 0
            invariant
                ret@ + stack_preorder(stack@) == self.preorder(),
            decreases self.preorder().len() - ret@.len(),
        {
            let ghost old_stack = stack@;
            let node = stack.pop().unwrap();
            proof {
                assert(old_stack.drop_last() =~= stack@);
            }
            match &node.childs {
                Some((child0, child1, split)) => {
                    stack.push(&**child1);
                    stack.push(&**child0);
                    ret.push(
                        LinearNode { bound: node.bound, len: 0, offset: node.offset, split_axis: *split },
                    );
                    proof {
                        let s1 = stack@.drop_last();
                        assert(s1.drop_last() =~= old_stack.drop_last());
                        assert(stack_preorder(s1) == child1.preorder() + stack_preorder(
                            old_stack.drop_last(),
                        ));
                        assert(stack_preorder(stack@) == child0.preorder() + stack_preorder(s1));
                        assert(stack_preorder(stack@) =~= child0.preorder() + (child1.preorder()
                            + stack_preorder(old_stack.drop_last())));
                    }
                },
                None => {
                    ret.push(
                        LinearNode { bound: node.bound, len: node.len, offset: node.offset, split_axis: 4 },
                    );
                },
            }
            proof {
                assert(ret@ + stack_preorder(stack@) =~= self.preorder());
            }
        }
        proof {
            assert(stack_preorder(stack@) =~= Seq::<LinearNode<T>>::empty());
            assert(ret@ =~= self.preorder());
            lemma_preorder_len(*self);
            lemma_preorder_node(*self, 0);
            assert forall|k: int| 0 <= k < ret.len() implies #[trigger] ret@[k].bound
                == self.subtree_at(k).bound && ret@[k].offset == self.subtree_at(k).offset by {
                lemma_preorder_node(*self, k);
            }
        }
        ret
    }
}

} // verus!
