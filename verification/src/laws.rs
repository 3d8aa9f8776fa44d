//! What holds of attaching a subtree at a label, whatever the tree.

use vstd::prelude::*;
use crate::model::RoseTree;

verus! {

impl<T> RoseTree<T> {
    /// The nodes that carry `label` are the root, if it does, and those of
    /// the subtrees; each further subtree adds its own.
    pub proof fn lemma_occurrences_unfold(self, label: T, n: nat)
        requires
            n <= self.children.len(),
        ensures
            self.occurrences(label) == (if self.label == label {
                1nat
            } else {
                0nat
            }) + self.occurrences_upto(label, self.children.len()),
            self.occurrences_upto(label, 0) == 0,
            n > 0 ==> self.occurrences_upto(label, n) == self.occurrences_upto(
                label,
                (n - 1) as nat,
            ) + self.children[n - 1].occurrences(label),
    {
        let carries = |l: T| l == label;
        let root = seq![self.label];
        self.lemma_labels_unfold(n);
        reveal_with_fuel(Seq::filter, 2);
        Seq::filter_distributes_over_add(root, self.labels_upto(self.children.len()), carries);
        if n > 0 {
            Seq::filter_distributes_over_add(
                self.labels_upto((n - 1) as nat),
                self.children[n - 1].labels(),
                carries,
            );
        }
    }

    /// Where no node carries `label`, attaching at `label` changes nothing.
    pub proof fn lemma_graft_absent(self, label: T, sub: RoseTree<T>)
        requires
            self.occurrences(label) == 0,
        ensures
            self.graft(label, sub) == self,
        decreases self,
    {
        self.lemma_occurrences_unfold(label, 0);
        assert forall|i: int| 0 <= i < self.children.len() implies (#[trigger] self.children[i])
            == self.children[i].graft(label, sub) by {
            self.lemma_none_upto(label, self.children.len(), i);
            self.children[i].lemma_graft_absent(label, sub);
        }
        assert(self.graft(label, sub).children =~= self.children);
    }

    /// Where no node of the first `n` subtrees carries `label`, no node of
    /// any one of them does.
    proof fn lemma_none_upto(self, label: T, n: nat, i: int)
        requires
            n <= self.children.len(),
            0 <= i < n,
            self.occurrences_upto(label, n) == 0,
        ensures
            self.children[i].occurrences(label) == 0,
        decreases n,
    {
        self.lemma_occurrences_unfold(label, n);
        if i < n - 1 {
            self.lemma_none_upto(label, (n - 1) as nat, i);
        }
    }

    /// Where one node of the first `n` subtrees carries `label`, it is in
    /// one subtree, which this function returns, and the others have none.
    proof fn lemma_one_upto(self, label: T, n: nat) -> (j: int)
        requires
            n <= self.children.len(),
            self.occurrences_upto(label, n) == 1,
        ensures
            0 <= j < n,
            self.children[j].occurrences(label) == 1,
            forall|i: int|
                0 <= i < n && i != j ==> #[trigger] self.children[i].occurrences(label) == 0,
        decreases n,
    {
        self.lemma_occurrences_unfold(label, n);
        if self.children[n - 1].occurrences(label) == 0 {
            self.lemma_one_upto(label, (n - 1) as nat)
        } else {
            assert forall|i: int| 0 <= i < n - 1 implies #[trigger] self.children[i].occurrences(
                label,
            ) == 0 by {
                self.lemma_none_upto(label, (n - 1) as nat, i);
            }
            n - 1
        }
    }

    /// Where exactly one node carries `label`, attaching at `label`
    /// attaches once: `sub` becomes the new last subtree of that node, to
    /// which the returned path leads, and nothing else changes.
    pub proof fn lemma_graft_unique(self, label: T, sub: RoseTree<T>) -> (path: Seq<int>)
        requires
            self.occurrences(label) == 1,
        ensures
            self.has_path(path),
            self.subtree(path).label == label,
            self.graft(label, sub) == self.attach_at(path, sub),
            self.graft(label, sub).order() == self.order() + sub.order(),
        decreases self,
    {
        self.lemma_occurrences_unfold(label, 0);
        if self.label == label {
            let path = Seq::<int>::empty();
            self.lemma_with_child(sub);
            path
        } else {
            let j = self.lemma_one_upto(label, self.children.len());
            let below = self.children[j].lemma_graft_unique(label, sub);
            let path = seq![j] + below;
            assert(path.drop_first() =~= below);
            assert forall|i: int|
                0 <= i < self.children.len() && i != j implies (#[trigger] self.children[i])
                == self.children[i].graft(label, sub) by {
                self.children[i].lemma_graft_absent(label, sub);
            }
            assert(self.graft(label, sub).children =~= self.attach_at(path, sub).children);
            self.lemma_attach_order(path, sub);
            path
        }
    }

    /// Attaching at a node adds the nodes of what is attached.
    pub proof fn lemma_attach_order(self, path: Seq<int>, sub: RoseTree<T>)
        requires
            self.has_path(path),
        ensures
            self.attach_at(path, sub).order() == self.order() + sub.order(),
        decreases path.len(),
    {
        if path.len() == 0 {
            self.lemma_with_child(sub);
        } else {
            let j = path[0];
            let grown = self.attach_at(path, sub);
            self.children[j].lemma_attach_order(path.drop_first(), sub);
            self.lemma_replaced_order(grown, j);
        }
    }

    /// Where two trees differ in one subtree only, their orders differ by
    /// as much as the orders of that subtree.
    proof fn lemma_replaced_order(self, other: RoseTree<T>, j: int)
        requires
            0 <= j < self.children.len(),
            other.children == self.children.update(j, other.children[j]),
        ensures
            other.order() - other.children[j].order() == self.order() - self.children[j].order(),
    {
        self.lemma_replaced_upto(other, j, self.children.len());
    }

    /// The same of the first `n` subtrees.
    proof fn lemma_replaced_upto(self, other: RoseTree<T>, j: int, n: nat)
        requires
            0 <= j < self.children.len(),
            n <= self.children.len(),
            other.children == self.children.update(j, other.children[j]),
        ensures
            n <= j ==> other.order_upto(n) == self.order_upto(n),
            n > j ==> other.order_upto(n) - other.children[j].order() == self.order_upto(n)
                - self.children[j].order(),
        decreases n,
    {
        if n > 0 {
            self.lemma_replaced_upto(other, j, (n - 1) as nat);
        }
    }

    /// A node that carries `label`, with no node that carries it on the
    /// way down from the root, receives `sub` as its new last subtree, and
    /// nothing below that node changes: a node with the same label further
    /// down receives nothing.
    pub proof fn lemma_graft_shallowest(self, label: T, sub: RoseTree<T>, path: Seq<int>)
        requires
            self.has_path(path),
            self.subtree(path).label == label,
            forall|k: int|
                0 <= k < path.len() ==> (#[trigger] self.subtree(path.take(k))).label != label,
        ensures
            self.graft(label, sub).has_path(path),
            self.graft(label, sub).subtree(path) == self.subtree(path).with_child(sub),
        decreases path.len(),
    {
        if path.len() == 0 {
        } else {
            let j = path[0];
            let rest = path.drop_first();
            assert(self.subtree(path.take(0)) == self);
            assert forall|k: int| 0 <= k < rest.len() implies (#[trigger] self.children[j].subtree(
                rest.take(k),
            )).label != label by {
                assert(path.take(k + 1).drop_first() =~= rest.take(k));
                assert(self.subtree(path.take(k + 1)) == self.children[j].subtree(rest.take(k)));
            }
            self.children[j].lemma_graft_shallowest(label, sub, rest);
        }
    }
}

} // verus!
