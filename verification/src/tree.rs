//! The content tree: directories that hold named children, and files that hold
//! bytes.

use vstd::prelude::*;

verus! {

/// One node of the content tree.
#[derive(Debug, PartialEq, Eq)]
pub enum Node {
    /// A directory with its children, in the order in which they were found.
    Directory { children: Vec<Entry> },
    /// A file with its bytes.
    File { content: Vec<u8> },
}

/// A node under the name it has in its directory.
#[derive(Debug, PartialEq, Eq)]
pub struct Entry {
    pub name: String,
    pub node: Node,
}

/// The mathematical content tree that a `Node` stands for.
pub enum Tree {
    Directory { children: Seq<(Seq<char>, Tree)> },
    File { content: Seq<u8> },
}

/// The tree that a node stands for: a directory with the names and trees of
/// its children in their order, or a file with its bytes.
pub open spec fn tree_of(node: Node) -> Tree
    decreases node,
{
    match node {
        Node::Directory { children } => Tree::Directory {
            children: Seq::new(
                children@.len(),
                |i: int|
                    if 0 <= i < children@.len() {
                        (children@[i].name@, tree_of(children@[i].node))
                    } else {
                        (Seq::empty(), Tree::File { content: Seq::empty() })
                    },
            ),
        },
        Node::File { content } => Tree::File { content: content@ },
    }
}

impl View for Node {
    type V = Tree;

    open spec fn view(&self) -> Tree {
        tree_of(*self)
    }
}

/// The children of a directory, each as its name and its tree.
pub open spec fn entries_view(children: Seq<Entry>) -> Seq<(Seq<char>, Tree)> {
    Seq::new(children.len(), |i: int| (children[i].name@, children[i].node@))
}

/// A directory stands for the directory of its children's trees.
pub proof fn lemma_directory_view(children: Vec<Entry>)
    ensures
        (Node::Directory { children })@ == (Tree::Directory { children: entries_view(children@) }),
{
    let node = Node::Directory { children };
    let tree = node@;
    assert(tree is Directory);
    let below = tree->children;
    assert(below.len() == children@.len());
    assert forall|i: int| 0 <= i < below.len() implies below[i] == entries_view(children@)[i] by {
        assert(below[i] == (children@[i].name@, children@[i].node@));
    }
    assert(below =~= entries_view(children@));
}

impl Tree {
    /// No name occurs twice among the children of any directory of the tree.
    pub open spec fn names_unique(self) -> bool
        decreases self,
    {
        match self {
            Tree::Directory { children } => {
                &&& forall|i: int, j: int|
                    0 <= i < j < children.len() ==> children[i].0 != children[j].0
                &&& forall|i: int|
                    0 <= i < children.len() ==> (#[trigger] children[i]).1.names_unique()
            },
            Tree::File { .. } => true,
        }
    }
}

} // verus!
