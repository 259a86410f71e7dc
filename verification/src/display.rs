//! The renderer: a tree as lines of text, joined by branch glyphs.

use crate::tree::{Node, Tree};
use vstd::prelude::*;

verus! {

/// Whether a node is the last of its siblings or has siblings below it.
#[derive(Debug, Clone, Copy, PartialEq, Eq, Structural)]
pub enum DisplayPlace {
    Item,
    Last,
}

/// The place of the sibling at `index` among `root_len` siblings: the last one
/// where `index` is `root_len - 1`, and where both are zero.
pub open spec fn placement(root_len: nat, index: nat) -> DisplayPlace {
    let last_index = if root_len == 0 {
        0
    } else {
        root_len - 1
    };
    if index == last_index {
        DisplayPlace::Last
    } else {
        DisplayPlace::Item
    }
}

/// What stands before the name of a node: the prefix of its parent's children
/// and the glyph that joins it to the branch.
pub open spec fn line_prefix(preprint: Seq<char>, place: DisplayPlace) -> Seq<char> {
    match place {
        DisplayPlace::Item => preprint + "├╴"@,
        DisplayPlace::Last => preprint + "╰╴"@,
    }
}

/// What stands before every line of a node's children: the branch goes on
/// beside them while siblings follow below.
pub open spec fn child_prefix(preprint: Seq<char>, place: DisplayPlace) -> Seq<char> {
    match place {
        DisplayPlace::Item => preprint + "│ "@,
        DisplayPlace::Last => preprint + "  "@,
    }
}

/// What parts a name from the lines of the children: a line break where there
/// are children.
pub open spec fn name_separator(len: nat) -> Seq<char> {
    if len == 0 {
        ""@
    } else {
        "\n"@
    }
}

/// The lines of the first `k` of `children`, one block per child, with a line
/// break between two blocks.
pub open spec fn children_lines(children: Seq<Tree>, k: nat, preprint: Seq<char>) -> Seq<char>
    decreases children, k,
{
    if k == 0 || k > children.len() {
        Seq::empty()
    } else {
        let above = if k == 1 {
            Seq::empty()
        } else {
            children_lines(children, (k - 1) as nat, preprint) + "\n"@
        };
        above + branch_lines(children[k - 1], children.len(), (k - 1) as nat, preprint)
    }
}

/// The lines of a node that is the sibling at `index` among `root_len`: its
/// own line with the prefix, then the lines of its children.
pub open spec fn branch_lines(tree: Tree, root_len: nat, index: nat, preprint: Seq<char>) -> Seq<
    char,
>
    decreases tree, 0nat,
{
    let place = placement(root_len, index);
    line_prefix(preprint, place) + tree.name + name_separator(tree.children.len())
        + children_lines(tree.children, tree.children.len(), child_prefix(preprint, place))
}

/// The drawing of a tree: the name of its root on the first line, and below it
/// the lines of its children.
pub open spec fn tree_lines(tree: Tree) -> Seq<char> {
    tree.name + name_separator(tree.children.len()) + children_lines(
        tree.children,
        tree.children.len(),
        Seq::empty(),
    )
}

/// The place of the sibling at `index` among `root_len` siblings.
pub fn compute_placement(root_len: usize, index: usize) -> (place: DisplayPlace)
    ensures
        place == placement(root_len as nat, index as nat),
{
    let last_index = if root_len == 0 {
        0
    } else {
        root_len - 1
    };
    if index == last_index {
        DisplayPlace::Last
    } else {
        DisplayPlace::Item
    }
}

/// The prefix for the lines of a node's children.
pub fn compute_child_preprint(preprint: &str, placement: &DisplayPlace) -> (prefix: String)
    ensures
        prefix@ == child_prefix(preprint@, *placement),
{
    let prefix = String::from_str(preprint);
    match placement {
        DisplayPlace::Item => prefix.concat("│ "),
        DisplayPlace::Last => prefix.concat("  "),
    }
}

/// The prefix for a node's own line.
pub fn compute_preprint(preprint: &str, placement: &DisplayPlace) -> (prefix: String)
    ensures
        prefix@ == line_prefix(preprint@, *placement),
{
    let prefix = String::from_str(preprint);
    match placement {
        DisplayPlace::Item => prefix.concat("├╴"),
        DisplayPlace::Last => prefix.concat("╰╴"),
    }
}

/// What parts a name from the lines of `len` children.
pub fn compute_name_separator(len: usize) -> (separator: &'static str)
    ensures
        separator@ == name_separator(len as nat),
{
    if len == 0 {
        ""
    } else {
        "\n"
    }
}

impl Node {
    /// The drawing of the tree below this node.
    pub fn mock_display(&self) -> (text: String)
        ensures
            text@ == tree_lines(self@),
    {
        proof {
            self.lemma_view();
        }
        let mut text = self.name.clone();
        text.append(compute_name_separator(self.children.len()));
        let below = self.display_root("");
        text.append(below.as_str());
        proof {
            assert(""@ =~= Seq::<char>::empty()) by {
                reveal_strlit("");
            }
        }
        text
    }

    /// The lines of this node's children, each line behind `preprint`.
    pub fn display_root(&self, preprint: &str) -> (text: String)
        ensures
            text@ == children_lines(self@.children, self@.children.len(), preprint@),
        decreases self, 0nat,
    {
        proof {
            self.lemma_view();
        }
        let root_length = self.children.len();
        let mut text = String::new();
        let mut index: usize = 0;
        while index < root_length
            invariant
                index <= root_length,
                root_length == self.children.len(),
                self@.children.len() == root_length,
                forall|i: int| 0 <= i < root_length ==> self@.children[i] == self.children@[i]@,
                text@ == children_lines(self@.children, index as nat, preprint@),
            decreases root_length - index,
        {
            if index > 0 {
                text.append("\n");
            }
            let block = self.children[index].display_branch(root_length, index, preprint);
            text.append(block.as_str());
            index += 1;
        }
        text
    }

    /// The lines of this node as the sibling at `index` among `root_len`, each
    /// line behind `preprint`.
    pub fn display_branch(&self, root_len: usize, index: usize, preprint: &str) -> (text: String)
        ensures
            text@ == branch_lines(self@, root_len as nat, index as nat, preprint@),
        decreases self, 1nat,
    {
        proof {
            self.lemma_view();
        }
        let len = self.children.len();
        let placement = compute_placement(root_len, index);
        let child_preprint = compute_child_preprint(preprint, &placement);
        let mut text = compute_preprint(preprint, &placement);
        text.append(self.name.as_str());
        text.append(compute_name_separator(len));
        let below = self.display_root(child_preprint.as_str());
        text.append(below.as_str());
        text
    }
}

} // verus!
