//! The mathematical model of a tree: a label and a sequence of subtrees.
//!
//! Every contract of the library is stated over this model. The functions
//! that end in `_upto` speak of the first `n` subtrees of the root; the
//! function without the suffix is the one that callers mean.

use vstd::prelude::*;

verus! {

/// What a tree is, apart from how it is stored: the label of its root and
/// its subtrees from left to right. A node without subtrees is a leaf.
pub struct RoseTree<T> {
    pub label: T,
    pub children: Seq<RoseTree<T>>,
}

impl<T> RoseTree<T> {
    /// The tree that consists of a single node.
    pub open spec fn leaf(label: T) -> RoseTree<T> {
        RoseTree { label, children: Seq::empty() }
    }

    /// Whether the root has no subtree.
    pub open spec fn is_leaf(self) -> bool {
        self.children.len() == 0
    }

    /// This tree with `child` as a new last subtree of the root.
    pub open spec fn with_child(self, child: RoseTree<T>) -> RoseTree<T> {
        RoseTree { label: self.label, children: self.children.push(child) }
    }

    /// The number of nodes in the first `n` subtrees of the root.
    pub open spec fn order_upto(self, n: nat) -> nat
        decreases self, n,
    {
        if n == 0 || n > self.children.len() {
            0
        } else {
            self.order_upto((n - 1) as nat) + self.children[n - 1].order()
        }
    }

    /// The number of nodes of the tree.
    pub open spec fn order(self) -> nat
        decreases self, self.children.len() + 1,
    {
        1 + self.order_upto(self.children.len())
    }

    /// The greatest depth among the first `n` subtrees of the root, 0 if
    /// `n` is 0.
    pub open spec fn depth_upto(self, n: nat) -> nat
        decreases self, n,
    {
        if n == 0 || n > self.children.len() {
            0
        } else {
            let before = self.depth_upto((n - 1) as nat);
            let here = self.children[n - 1].depth();
            if here > before {
                here
            } else {
                before
            }
        }
    }

    /// The number of nodes on the longest path from the root to a leaf.
    pub open spec fn depth(self) -> nat
        decreases self, self.children.len() + 1,
    {
        1 + self.depth_upto(self.children.len())
    }

    /// The nodes of the first `n` subtrees of the root, each subtree in
    /// preorder, the subtrees from left to right.
    pub open spec fn nodes_upto(self, n: nat) -> Seq<RoseTree<T>>
        decreases self, n,
    {
        if n == 0 || n > self.children.len() {
            Seq::empty()
        } else {
            self.nodes_upto((n - 1) as nat) + self.children[n - 1].nodes()
        }
    }

    /// The nodes of the tree in preorder: the root, then the nodes of each
    /// subtree. A node stands for the subtree below it.
    pub open spec fn nodes(self) -> Seq<RoseTree<T>>
        decreases self, self.children.len() + 1,
    {
        seq![self] + self.nodes_upto(self.children.len())
    }

    /// The labels of the nodes of the first `n` subtrees of the root.
    pub open spec fn labels_upto(self, n: nat) -> Seq<T> {
        self.nodes_upto(n).map_values(|node: RoseTree<T>| node.label)
    }

    /// The labels of the nodes in preorder.
    pub open spec fn labels(self) -> Seq<T> {
        self.nodes().map_values(|node: RoseTree<T>| node.label)
    }

    /// The nodes without subtrees in the first `n` subtrees of the root.
    pub open spec fn leaves_upto(self, n: nat) -> Seq<RoseTree<T>> {
        self.nodes_upto(n).filter(|node: RoseTree<T>| node.is_leaf())
    }

    /// The nodes without subtrees, in preorder.
    pub open spec fn leaves(self) -> Seq<RoseTree<T>> {
        self.nodes().filter(|node: RoseTree<T>| node.is_leaf())
    }

    /// Whether `path` leads from the root to a node: each entry names, by
    /// its index, the subtree to go down into.
    pub open spec fn has_path(self, path: Seq<int>) -> bool
        decreases path.len(),
    {
        path.len() == 0 || {
            &&& 0 <= path[0] < self.children.len()
            &&& self.children[path[0]].has_path(path.drop_first())
        }
    }

    /// The node that `path` leads to, as the tree below it.
    pub open spec fn subtree(self, path: Seq<int>) -> RoseTree<T>
        recommends
            self.has_path(path),
        decreases path.len(),
    {
        if path.len() == 0 || !(0 <= path[0] < self.children.len()) {
            self
        } else {
            self.children[path[0]].subtree(path.drop_first())
        }
    }

    /// This tree with `sub` as a new last subtree of the node that `path`
    /// leads to, and of no other.
    pub open spec fn attach_at(self, path: Seq<int>, sub: RoseTree<T>) -> RoseTree<T>
        recommends
            self.has_path(path),
        decreases path.len(),
    {
        if path.len() == 0 {
            self.with_child(sub)
        } else if 0 <= path[0] < self.children.len() {
            RoseTree {
                label: self.label,
                children: self.children.update(
                    path[0],
                    self.children[path[0]].attach_at(path.drop_first(), sub),
                ),
            }
        } else {
            self
        }
    }

    /// This tree with `sub` as a new last subtree of each node that carries
    /// `label` and has no node with that label above it: below a node that
    /// received `sub`, nothing changes.
    pub open spec fn graft(self, label: T, sub: RoseTree<T>) -> RoseTree<T>
        decreases self,
    {
        if self.label == label {
            self.with_child(sub)
        } else {
            RoseTree {
                label: self.label,
                children: Seq::new(
                    self.children.len(),
                    |i: int|
                        if 0 <= i < self.children.len() {
                            self.children[i].graft(label, sub)
                        } else {
                            self
                        },
                ),
            }
        }
    }

    /// How many nodes of the first `n` subtrees of the root carry `label`.
    pub open spec fn occurrences_upto(self, label: T, n: nat) -> nat {
        self.labels_upto(n).filter(|l: T| l == label).len()
    }

    /// How many nodes carry `label`.
    pub open spec fn occurrences(self, label: T) -> nat {
        self.labels().filter(|l: T| l == label).len()
    }

    /// The `_upto` functions look at the first `n` subtrees only.
    pub proof fn lemma_upto_agree(self, other: RoseTree<T>, n: nat)
        requires
            n <= self.children.len(),
            n <= other.children.len(),
            forall|i: int| 0 <= i < n ==> self.children[i] == other.children[i],
        ensures
            self.order_upto(n) == other.order_upto(n),
            self.depth_upto(n) == other.depth_upto(n),
            self.nodes_upto(n) == other.nodes_upto(n),
        decreases n,
    {
        if n > 0 {
            self.lemma_upto_agree(other, (n - 1) as nat);
        }
    }

    /// The order and the depth of a tree do not depend on the label of its
    /// root.
    pub proof fn lemma_same_children(self, other: RoseTree<T>)
        requires
            self.children == other.children,
        ensures
            self.order() == other.order(),
            self.depth() == other.depth(),
    {
        self.lemma_upto_agree(other, self.children.len());
    }

    /// More subtrees hold at least as many nodes and reach at least as deep.
    pub proof fn lemma_upto_monotone(self, m: nat, n: nat)
        requires
            m <= n <= self.children.len(),
        ensures
            self.order_upto(m) <= self.order_upto(n),
            self.depth_upto(m) <= self.depth_upto(n),
        decreases n,
    {
        if m < n {
            self.lemma_upto_monotone(m, (n - 1) as nat);
        }
    }

    /// A subtree has fewer nodes than the tree and is less deep.
    pub proof fn lemma_child_smaller(self, i: int)
        requires
            0 <= i < self.children.len(),
        ensures
            self.children[i].order() < self.order(),
            self.children[i].depth() < self.depth(),
    {
        self.lemma_upto_monotone((i + 1) as nat, self.children.len());
    }

    /// A tree is at most as deep as it has nodes.
    pub proof fn lemma_depth_le_order(self)
        ensures
            self.depth() <= self.order(),
        decreases self, self.children.len() + 1,
    {
        self.lemma_depth_le_order_upto(self.children.len());
    }

    /// The first `n` subtrees are at most as deep as they have nodes.
    pub proof fn lemma_depth_le_order_upto(self, n: nat)
        requires
            n <= self.children.len(),
        ensures
            self.depth_upto(n) <= self.order_upto(n),
        decreases self, n,
    {
        if n > 0 {
            self.lemma_depth_le_order_upto((n - 1) as nat);
            self.children[n - 1].lemma_depth_le_order();
        }
    }

    /// A new last subtree adds its nodes to the tree, after those that were
    /// there, and makes the tree as deep as itself and the root, where that
    /// is deeper than before.
    pub proof fn lemma_with_child(self, child: RoseTree<T>)
        ensures
            self.with_child(child).order() == self.order() + child.order(),
            self.with_child(child).depth() == if child.depth() + 1 > self.depth() {
                child.depth() + 1
            } else {
                self.depth()
            },
            self.with_child(child).nodes() == seq![self.with_child(child)]
                + self.nodes().drop_first() + child.nodes(),
            self.with_child(child).labels() == self.labels() + child.labels(),
    {
        let grown = self.with_child(child);
        grown.lemma_upto_agree(self, self.children.len());
    }

    /// The first `n` subtrees have as many nodes as their preorder lists.
    pub proof fn lemma_nodes_upto_len(self, n: nat)
        requires
            n <= self.children.len(),
        ensures
            self.nodes_upto(n).len() == self.order_upto(n),
        decreases self, n,
    {
        if n > 0 {
            self.lemma_nodes_upto_len((n - 1) as nat);
            self.children[n - 1].lemma_nodes_len();
        }
    }

    /// The tree has as many nodes as its preorder lists, and at least one.
    pub proof fn lemma_nodes_len(self)
        ensures
            self.nodes().len() == self.order(),
            self.labels().len() == self.order(),
            self.order() >= 1,
        decreases self, self.children.len() + 1,
    {
        self.lemma_nodes_upto_len(self.children.len());
    }

    /// The labels of a tree are the label of the root and then the labels
    /// of the subtrees; each further subtree adds its own at the end.
    pub proof fn lemma_labels_unfold(self, n: nat)
        requires
            n <= self.children.len(),
        ensures
            self.labels() == seq![self.label] + self.labels_upto(self.children.len()),
            self.labels_upto(0) == Seq::<T>::empty(),
            n > 0 ==> self.labels_upto(n) == self.labels_upto((n - 1) as nat)
                + self.children[n - 1].labels(),
    {
    }

    /// The leaves of a leaf are the leaf itself; those of another tree are
    /// the leaves of its subtrees, each further subtree adding its own at
    /// the end.
    pub proof fn lemma_leaves_unfold(self, n: nat)
        requires
            n <= self.children.len(),
        ensures
            self.is_leaf() ==> self.leaves() == seq![self],
            !self.is_leaf() ==> self.leaves() == self.leaves_upto(self.children.len()),
            self.leaves_upto(0) == Seq::<RoseTree<T>>::empty(),
            n > 0 ==> self.leaves_upto(n) == self.leaves_upto((n - 1) as nat)
                + self.children[n - 1].leaves(),
    {
        let is_leaf = |node: RoseTree<T>| node.is_leaf();
        let root = seq![self];
        reveal_with_fuel(Seq::filter, 2);
        Seq::filter_distributes_over_add(root, self.nodes_upto(self.children.len()), is_leaf);
        if n > 0 {
            Seq::filter_distributes_over_add(
                self.nodes_upto((n - 1) as nat),
                self.children[n - 1].nodes(),
                is_leaf,
            );
        }
    }
}

} // verus!
