//! The tree as it is stored, and its structural operations.

use vstd::prelude::*;
use crate::label::{clones_exactly, compares_by_value};
use crate::model::RoseTree;

verus! {

/// A rooted tree whose nodes carry a label and keep their children in order.
#[derive(Debug, PartialEq)]
pub enum Tree<T: Clone + PartialEq> {
    Leaf { label: T },
    Node { label: T, children: Vec<Tree<T>> },
}

impl<T: Clone + PartialEq> View for Tree<T> {
    type V = RoseTree<T>;

    /// The tree as a value of the model: see [`Tree::model`].
    open spec fn view(&self) -> RoseTree<T> {
        self.model()
    }
}

impl<T: Clone + PartialEq> Tree<T> {
    /// The label of the root and the models of the children, in order.
    pub open spec fn model(self) -> RoseTree<T>
        decreases self,
    {
        match self {
            Tree::Leaf { label } => RoseTree::leaf(label),
            Tree::Node { label, children } => RoseTree {
                label,
                children: Seq::new(
                    children@.len(),
                    |i: int|
                        if 0 <= i < children@.len() {
                            children@[i].model()
                        } else {
                            RoseTree::leaf(label)
                        },
                ),
            },
        }
    }

    /// Whether the tree is well formed: a node that is stored as one with
    /// children has at least one child, here and below. The functions that
    /// build and change trees keep this.
    pub open spec fn wf(self) -> bool
        decreases self,
    {
        match self {
            Tree::Leaf { .. } => true,
            Tree::Node { children, .. } => {
                &&& children@.len() > 0
                &&& forall|i: int| 0 <= i < children@.len() ==> (#[trigger] children@[i]).wf()
            },
        }
    }

    /// The models of the trees that a vector of references points to.
    pub open spec fn models(trees: Seq<&Tree<T>>) -> Seq<RoseTree<T>> {
        Seq::new(trees.len(), |i: int| trees[i]@)
    }

    /// The values that a vector of references points to.
    pub open spec fn values(labels: Seq<&T>) -> Seq<T> {
        Seq::new(labels.len(), |i: int| *labels[i])
    }

    /// The tree that consists of one node with the given label.
    pub fn new(label: T) -> (tree: Self)
        ensures
            tree@ == RoseTree::leaf(label),
            tree@.order() == 1,
            tree@.depth() == 1,
            tree.wf(),
    {
        Tree::Leaf { label }
    }

    /// Adds `child` as the new last child of the root. The root keeps its
    /// label, by a copy of it where the root was a leaf.
    pub fn add_child(&mut self, child: Tree<T>)
        ensures
            final(self)@.children == old(self)@.children.push(child@),
            cloned::<T>(old(self)@.label, final(self)@.label),
            clones_exactly::<T>() ==> final(self)@ == old(self)@.with_child(child@),
            final(self)@.order() == old(self)@.order() + child@.order(),
            final(self)@.depth() == if child@.depth() + 1 > old(self)@.depth() {
                child@.depth() + 1
            } else {
                old(self)@.depth()
            },
            old(self).wf() && child.wf() ==> final(self).wf(),
    {
        match self {
            Tree::Leaf { label } => {
                let kept = label.clone();
                let mut children = Vec::new();
                children.push(child);
                *self = Tree::Node { label: kept, children };
            },
            Tree::Node { children, .. } => {
                children.push(child);
            },
        }
        proof {
            assert(self@.children =~= old(self)@.children.push(child@));
            let grown = RoseTree { label: old(self)@.label, children: self@.children };
            old(self)@.lemma_with_child(child@);
            self@.lemma_same_children(grown);
        }
    }

    /// The label of the root.
    pub fn label(&self) -> (label: &T)
        ensures
            *label == self@.label,
    {
        match self {
            Tree::Leaf { label } => label,
            Tree::Node { label, .. } => label,
        }
    }

    /// The child of the root at `index`, counted from 0, if there is one.
    pub fn get_child(&self, index: usize) -> (child: Option<&Tree<T>>)
        ensures
            index < self@.children.len() ==> child.is_some() && child.unwrap()@
                == self@.children[index as int],
            index >= self@.children.len() ==> child.is_none(),
            self.wf() && child.is_some() ==> child.unwrap().wf(),
    {
        match self {
            Tree::Leaf { .. } => None,
            Tree::Node { children, .. } => {
                if index < children.len() {
                    Some(&children[index])
                } else {
                    None
                }
            },
        }
    }

    /// The label of the child of the root at `index`, if there is one.
    pub fn get_child_label(&self, index: usize) -> (label: Option<&T>)
        ensures
            index < self@.children.len() ==> label.is_some() && *label.unwrap()
                == self@.children[index as int].label,
            index >= self@.children.len() ==> label.is_none(),
    {
        match self.get_child(index) {
            None => None,
            Some(child) => Some(child.label()),
        }
    }

    /// The children of the root, unless the root is a leaf.
    pub fn root_children(&self) -> (children: Option<&Vec<Tree<T>>>)
        ensures
            children.is_none() <==> *self is Leaf,
            children.is_some() ==> {
                &&& children.unwrap()@.len() == self@.children.len()
                &&& forall|i: int|
                    0 <= i < self@.children.len() ==> (#[trigger] children.unwrap()@[i])@
                        == self@.children[i]
            },
            self.wf() ==> (children.is_none() <==> self@.is_leaf()),
            self.wf() && children.is_some() ==> forall|i: int|
                0 <= i < self@.children.len() ==> (#[trigger] children.unwrap()@[i]).wf(),
    {
        match self {
            Tree::Leaf { .. } => None,
            Tree::Node { children, .. } => Some(children),
        }
    }

    /// The number of nodes on the longest path from the root to a leaf.
    pub fn depth(&self) -> (depth: usize)
        requires
            self@.depth() <= usize::MAX,
        ensures
            depth == self@.depth(),
        decreases self,
    {
        match self {
            Tree::Leaf { .. } => 1,
            Tree::Node { children, .. } => {
                let mut max_depth: usize = 0;
                let mut i: usize = 0;
                while i < children.len()
                    invariant
                        i <= children.len(),
                        *self is Node,
                        (*self)->children == *children,
                        max_depth == self@.depth_upto(i as nat),
                        self@.depth() <= usize::MAX,
                    decreases children.len() - i,
                {
                    proof {
                        self@.lemma_child_smaller(i as int);
                    }
                    let depth = children[i].depth();
                    if depth > max_depth {
                        max_depth = depth;
                    }
                    i += 1;
                }
                max_depth + 1
            },
        }
    }

    /// The number of nodes of the tree.
    pub fn order(&self) -> (order: usize)
        requires
            self@.order() <= usize::MAX,
        ensures
            order == self@.order(),
        decreases self,
    {
        match self {
            Tree::Leaf { .. } => 1,
            Tree::Node { children, .. } => {
                let mut size: usize = 1;
                let mut i: usize = 0;
                while i < children.len()
                    invariant
                        i <= children.len(),
                        *self is Node,
                        (*self)->children == *children,
                        size == 1 + self@.order_upto(i as nat),
                        self@.order() <= usize::MAX,
                    decreases children.len() - i,
                {
                    proof {
                        self@.lemma_child_smaller(i as int);
                        self@.lemma_upto_monotone((i + 1) as nat, children@.len());
                    }
                    size += children[i].order();
                    i += 1;
                }
                size
            },
        }
    }

    /// Every node of the tree, in preorder: the root, then the nodes of each
    /// child in turn. A node is the tree below it.
    pub fn get_nodes(&self) -> (nodes: Vec<&Tree<T>>)
        ensures
            Self::models(nodes@) == self@.nodes(),
            nodes@.len() == self@.order(),
            self@.depth() <= nodes@.len(),
            self.wf() ==> forall|k: int| 0 <= k < nodes@.len() ==> (#[trigger] nodes@[k]).wf(),
        decreases self,
    {
        let mut out: Vec<&Tree<T>> = Vec::new();
        out.push(self);
        match self {
            Tree::Leaf { .. } => {},
            Tree::Node { children, .. } => {
                let mut i: usize = 0;
                while i < children.len()
                    invariant
                        i <= children.len(),
                        *self is Node,
                        (*self)->children == *children,
                        Self::models(out@) == seq![self@] + self@.nodes_upto(i as nat),
                        self.wf() ==> forall|k: int| 0 <= k < out@.len() ==> (#[trigger] out@[k]).wf(),
                    decreases children.len() - i,
                {
                    let ghost before = out@;
                    let mut below = children[i].get_nodes();
                    let ghost added = below@;
                    out.append(&mut below);
                    assert(Self::models(out@) =~= Self::models(before) + Self::models(added));
                    i += 1;
                }
            },
        }
        proof {
            self@.lemma_nodes_len();
            self@.lemma_depth_le_order();
        }
        out
    }

    /// The label of every node, in preorder; a label that several nodes
    /// carry comes once for each.
    pub fn node_labels(&self) -> (labels: Vec<&T>)
        ensures
            Self::values(labels@) == self@.labels(),
            labels@.len() == self@.order(),
        decreases self,
    {
        let mut out: Vec<&T> = Vec::new();
        out.push(self.label());
        proof {
            self@.lemma_labels_unfold(0);
        }
        match self {
            Tree::Leaf { .. } => {},
            Tree::Node { children, .. } => {
                let mut i: usize = 0;
                while i < children.len()
                    invariant
                        i <= children.len(),
                        *self is Node,
                        (*self)->children == *children,
                        Self::values(out@) == seq![self@.label] + self@.labels_upto(i as nat),
                    decreases children.len() - i,
                {
                    let ghost before = out@;
                    let mut below = children[i].node_labels();
                    let ghost added = below@;
                    out.append(&mut below);
                    proof {
                        self@.lemma_labels_unfold((i + 1) as nat);
                        assert(Self::values(out@) =~= Self::values(before) + Self::values(added));
                    }
                    i += 1;
                }
            },
        }
        proof {
            self@.lemma_nodes_len();
        }
        out
    }

    /// Every leaf of the tree, from left to right.
    pub fn leaves(&self) -> (leaves: Vec<&Tree<T>>)
        ensures
            Self::models(leaves@) == self@.leaves(),
            self.wf() ==> forall|k: int| 0 <= k < leaves@.len() ==> *(#[trigger] leaves@[k]) is Leaf,
        decreases self,
    {
        let mut out: Vec<&Tree<T>> = Vec::new();
        proof {
            self@.lemma_leaves_unfold(0);
        }
        match self {
            Tree::Leaf { .. } => {
                out.push(self);
            },
            Tree::Node { children, .. } => {
                if children.len() == 0 {
                    out.push(self);
                }
                let mut i: usize = 0;
                while i < children.len()
                    invariant
                        i <= children.len(),
                        *self is Node,
                        (*self)->children == *children,
                        children.len() > 0 ==> Self::models(out@) == self@.leaves_upto(i as nat),
                        children.len() == 0 ==> Self::models(out@) == seq![self@],
                        self.wf() ==> forall|k: int|
                            0 <= k < out@.len() ==> *(#[trigger] out@[k]) is Leaf,
                    decreases children.len() - i,
                {
                    let mut below = children[i].leaves();
                    out.append(&mut below);
                    proof {
                        self@.lemma_leaves_unfold((i + 1) as nat);
                    }
                    i += 1;
                }
            },
        }
        out
    }

    /// Adds a copy of `new_child` as the new last child of each node that
    /// carries `label` and has no node with that label above it. Where the
    /// root carries `label`, only the root receives a copy; where no node
    /// does, the tree stays as it is.
    pub fn add_child_at_label(&mut self, label: &T, new_child: &Tree<T>)
        ensures
            clones_exactly::<T>() && compares_by_value::<T>() ==> final(self)@ == old(self)@.graft(
                *label,
                new_child@,
            ),
            old(self).wf() && new_child.wf() ==> final(self).wf(),
        decreases *old(self),
    {
        let ghost before = *old(self);
        let ghost sub = new_child@;
        let ghost faithful = clones_exactly::<T>() && compares_by_value::<T>();
        match self {
            Tree::Leaf { label: l } => {
                if *l == *label {
                    let kept = l.clone();
                    assert(cloned::<T>(*l, kept));
                    let mut children = Vec::new();
                    children.push(new_child.clone());
                    *self = Tree::Node { label: kept, children };
                }
            },
            Tree::Node { label: l, children } => {
                if *l == *label {
                    children.push(new_child.clone());
                } else {
                    let ghost kids = *children;
                    let mut i: usize = 0;
                    while i < children.len()
                        invariant
                            faithful == (clones_exactly::<T>() && compares_by_value::<T>()),
                            sub == new_child@,
                            before == *old(self),
                            before is Node,
                            before->children == kids,
                            i <= children.len(),
                            children@.len() == kids@.len(),
                            forall|k: int|
                                0 <= k < i ==> {
                                    &&& faithful ==> (#[trigger] children@[k])@ == kids@[k]@.graft(
                                        *label,
                                        sub,
                                    )
                                    &&& kids@[k].wf() && new_child.wf() ==> children@[k].wf()
                                },
                            forall|k: int| i <= k < kids@.len() ==> children@[k] == kids@[k],
                        decreases children.len() - i,
                    {
                        assert(decreases_to!(before => kids[i as int]));
                        children[i].add_child_at_label(label, new_child);
                        i += 1;
                    }
                }
            },
        }
        assert(faithful ==> self@.label == before@.label);
        assert(faithful ==> self@.children =~= before@.graft(*label, sub).children);
    }

    /// Adds a leaf with the label `new_leaf` wherever
    /// [`Tree::add_child_at_label`] would add a child.
    pub fn add_leaf_at_label(&mut self, label: &T, new_leaf: T)
        ensures
            clones_exactly::<T>() && compares_by_value::<T>() ==> final(self)@ == old(self)@.graft(
                *label,
                RoseTree::leaf(new_leaf),
            ),
            old(self).wf() ==> final(self).wf(),
    {
        let leaf = Tree::new(new_leaf);
        self.add_child_at_label(label, &leaf);
    }
}

impl<T: Clone + PartialEq> Clone for Tree<T> {
    /// A tree of its own with the same labels in the same places.
    fn clone(&self) -> (copy: Self)
        ensures
            clones_exactly::<T>() ==> copy@ == self@,
            self.wf() ==> copy.wf(),
        decreases self,
    {
        match self {
            Tree::Leaf { label } => {
                let kept = label.clone();
                assert(cloned::<T>(*label, kept));
                Tree::Leaf { label: kept }
            },
            Tree::Node { label, children } => {
                let kept = label.clone();
                assert(cloned::<T>(*label, kept));
                let mut copies: Vec<Tree<T>> = Vec::new();
                let mut i: usize = 0;
                while i < children.len()
                    invariant
                        i <= children.len(),
                        *self is Node,
                        (*self)->children == *children,
                        copies@.len() == i,
                        forall|k: int|
                            0 <= k < i ==> {
                                &&& clones_exactly::<T>() ==> (#[trigger] copies@[k])@ == children@[k]@
                                &&& children@[k].wf() ==> copies@[k].wf()
                            },
                    decreases children.len() - i,
                {
                    let copy = children[i].clone();
                    copies.push(copy);
                    i += 1;
                }
                let copy = Tree::Node { label: kept, children: copies };
                assert(clones_exactly::<T>() ==> copy@.children =~= self@.children);
                copy
            },
        }
    }
}

} // verus!
