//! The two renderings of a tree: the compact one on a single line, and the
//! indented one that draws the branches.

use vstd::prelude::*;
use crate::model::RoseTree;
use crate::prettyprint::{DebugText, PrettyPrint};
use crate::text::{ends_with_newline, has_final_newline, with_newline};
use crate::tree::Tree;

verus! {

/// Under a level whose node has further siblings below: `│` and three
/// spaces.
pub open spec fn bar() -> Seq<char> {
    seq!['│', ' ', ' ', ' ']
}

/// Under a level whose node was the last of its siblings: four spaces.
pub open spec fn blank() -> Seq<char> {
    seq![' ', ' ', ' ', ' ']
}

/// Before a child that has further siblings below: `├──` and a space.
pub open spec fn tee() -> Seq<char> {
    seq!['├', '─', '─', ' ']
}

/// Before the last child: `└──` and a space.
pub open spec fn corner() -> Seq<char> {
    seq!['└', '─', '─', ' ']
}

/// What stands before the branch of a line: for each level above, from the
/// root down, a bar where `cols` is true and blanks where it is false.
pub open spec fn indent(cols: Seq<bool>) -> Seq<char>
    decreases cols.len(),
{
    if cols.len() == 0 {
        Seq::empty()
    } else {
        indent(cols.drop_last()) + if cols.last() {
            bar()
        } else {
            blank()
        }
    }
}

/// The flags with those at the positions from `from` up to `to`, `to`
/// excluded, set to false.
pub open spec fn lowered(flags: Seq<bool>, from: int, to: int) -> Seq<bool> {
    Seq::new(flags.len(), |k: int| if from <= k < to { false } else { flags[k] })
}

impl<T: DebugText> RoseTree<T> {
    /// The compact renderings of the first `n` subtrees of the root, with a
    /// comma and a space between one and the next.
    pub open spec fn compact_upto(self, n: nat) -> Seq<char>
        decreases self, n,
    {
        if n == 0 || n > self.children.len() {
            Seq::empty()
        } else if n == 1 {
            self.children[0].compact()
        } else {
            self.compact_upto((n - 1) as nat) + seq![',', ' '] + self.children[n - 1].compact()
        }
    }

    /// The compact rendering: the text of the label and, unless the tree
    /// is a leaf, the renderings of the subtrees in square brackets.
    pub open spec fn compact(self) -> Seq<char>
        decreases self, self.children.len() + 1,
    {
        if self.is_leaf() {
            self.label.debug_text()
        } else {
            self.label.debug_text() + seq!['['] + self.compact_upto(self.children.len()) + seq![']']
        }
    }
}

impl<T: PrettyPrint> RoseTree<T> {
    /// The indented rendering as far as the first `n` subtrees of the root:
    /// the text of the label, and for each subtree a new line with the
    /// indentation for `cols`, the branch and the rendering of the subtree.
    pub open spec fn pretty_upto(self, cols: Seq<bool>, n: nat) -> Seq<char>
        decreases self, n,
    {
        if n == 0 || n > self.children.len() {
            self.label.pretty_text()
        } else {
            let last = n == self.children.len();
            with_newline(self.pretty_upto(cols, (n - 1) as nat)) + indent(cols) + (if last {
                corner()
            } else {
                tee()
            }) + self.children[n - 1].pretty(cols.push(!last))
        }
    }

    /// The indented rendering of a tree whose root stands below
    /// `cols.len()` levels, of which `cols` says which still have siblings
    /// to come. A leaf is the text of its label; another tree ends with a
    /// line break.
    pub open spec fn pretty(self, cols: Seq<bool>) -> Seq<char>
        decreases self, self.children.len() + 1,
    {
        if self.is_leaf() {
            self.label.pretty_text()
        } else {
            with_newline(self.pretty_upto(cols, self.children.len()))
        }
    }
}

/// Appends the indentation for the first `depth` flags.
fn append_indent(out: &mut String, col_display: &Vec<bool>, depth: usize)
    requires
        depth <= col_display@.len(),
    ensures
        final(out)@ == old(out)@ + indent(col_display@.take(depth as int)),
{
    let ghost cols = col_display@.take(depth as int);
    let mut j: usize = 0;
    while j < depth
        invariant
            j <= depth <= col_display@.len(),
            cols == col_display@.take(depth as int),
            out@ == old(out)@ + indent(cols.take(j as int)),
        decreases depth - j,
    {
        if col_display[j] {
            out.append("│   ");
        } else {
            out.append("    ");
        }
        proof {
            reveal_strlit("│   ");
            reveal_strlit("    ");
            let next = cols.take(j + 1);
            assert(next.drop_last() =~= cols.take(j as int));
        }
        j += 1;
    }
    assert(cols.take(depth as int) =~= cols);
}

impl<T: Clone + PartialEq + DebugText> Tree<T> {
    /// The compact rendering: the label, and in square brackets the
    /// renderings of the children, with a comma and a space between them.
    /// A node without children is its label alone.
    pub fn ascii(&self) -> (text: String)
        ensures
            text@ == self@.compact(),
        decreases self,
    {
        match self {
            Tree::Leaf { label } => label.debug_string(),
            Tree::Node { label, children } => {
                let mut out = label.debug_string();
                if children.len() == 0 {
                    return out;
                }
                proof {
                    reveal_strlit("[");
                    reveal_strlit("]");
                }
                out.append("[");
                let mut i: usize = 0;
                while i < children.len()
                    invariant
                        i <= children.len(),
                        *self is Node,
                        (*self)->children == *children,
                        out@ == self@.label.debug_text() + seq!['['] + self@.compact_upto(i as nat),
                    decreases children.len() - i,
                {
                    if i > 0 {
                        out.append(", ");
                    }
                    let below = children[i].ascii();
                    out.append(below.as_str());
                    proof {
                        reveal_strlit(", ");
                    }
                    i += 1;
                }
                out.append("]");
                out
            },
        }
    }
}

impl<T: Clone + PartialEq + PrettyPrint> Tree<T> {
    /// The indented rendering of a tree whose root stands `depth` levels
    /// below the top: the label, and for each child a line of its own that
    /// starts with a bar or blanks for each level above, as the first
    /// `depth` flags of `col_display` say, and then the branch. A tree with
    /// children ends with a line break; a node without children is its
    /// label alone.
    ///
    /// The flags from `depth` on are working storage, one for each level of
    /// the tree but the lowest: the walk leaves false in them, and the
    /// other flags as they were.
    pub fn ascii_pretty(&self, depth: usize, col_display: &mut Vec<bool>) -> (text: String)
        requires
            !self@.is_leaf() ==> depth + self@.depth() <= old(col_display)@.len() + 1,
        ensures
            text@ == self@.pretty(old(col_display)@.take(depth as int)),
            final(col_display)@ == lowered(
                old(col_display)@,
                depth as int,
                depth + self@.depth() - 1,
            ),
        decreases self,
    {
        let ghost start = col_display@;
        let ghost cols = start.take(depth as int);
        match self {
            Tree::Leaf { label } => {
                assert(col_display@ =~= lowered(start, depth as int, depth + self@.depth() - 1));
                label.ascii()
            },
            Tree::Node { label, children } => {
                let mut out = label.ascii();
                let n = children.len();
                if n == 0 {
                    assert(col_display@ =~= lowered(start, depth as int, depth + self@.depth() - 1));
                    return out;
                }
                proof {
                    self@.lemma_child_smaller(0);
                }
                let mut ends = has_final_newline(out.as_str());
                let mut i: usize = 0;
                while i < n
                    invariant
                        i <= n,
                        0 < n == children.len(),
                        *self is Node,
                        (*self)->children == *children,
                        depth < start.len(),
                        depth + self@.depth() <= start.len() + 1,
                        col_display@.len() == start.len(),
                        cols == start.take(depth as int),
                        out@ == self@.pretty_upto(cols, i as nat),
                        ends == ends_with_newline(out@),
                        i == 0 ==> col_display@ == start,
                        i > 0 ==> col_display@ == lowered(
                            start,
                            depth + 1,
                            depth + self@.depth_upto(i as nat),
                        ).update(depth as int, i < n),
                    decreases n - i,
                {
                    let ghost flags = col_display@;
                    proof {
                        reveal_strlit("\n");
                        reveal_strlit("└── ");
                        reveal_strlit("├── ");
                        self@.lemma_child_smaller(i as int);
                        self@.lemma_upto_monotone((i + 1) as nat, n as nat);
                    }
                    if !ends {
                        out.append("\n");
                    }
                    assert(flags.take(depth as int) =~= cols);
                    append_indent(&mut out, col_display, depth);
                    let last = i + 1 == n;
                    col_display.set(depth, !last);
                    if last {
                        out.append("└── ");
                    } else {
                        out.append("├── ");
                    }
                    assert(col_display@.take(depth + 1) =~= cols.push(!last));
                    assert(depth < col_display.len());
                    let below = children[i].ascii_pretty(depth + 1, col_display);
                    out.append(below.as_str());
                    ends = has_final_newline(below.as_str());
                    assert(out@ =~= self@.pretty_upto(cols, (i + 1) as nat));
                    i += 1;
                }
                if !ends {
                    proof {
                        reveal_strlit("\n");
                    }
                    out.append("\n");
                }
                out
            },
        }
    }
}

} // verus!
