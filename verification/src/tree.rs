//! The tree model: a named node that owns an ordered list of children.

use vstd::prelude::*;

verus! {

/// The mathematical tree that a [`Node`] stands for.
pub ghost struct Tree {
    pub name: Seq<char>,
    pub children: Seq<Tree>,
}

/// A named node with its children, in drawing order.
#[derive(Debug, PartialEq, Eq, PartialOrd, Ord)]
pub struct Node {
    pub(crate) name: String,
    pub(crate) children: Vec<Node>,
}

/// The trees that a list of nodes stands for.
pub open spec fn forest_view(nodes: Seq<Node>) -> Seq<Tree> {
    Seq::new(nodes.len(), |i: int| nodes[i]@)
}

/// The views of the first `k` nodes of `nodes`.
pub closed spec fn views_upto(nodes: Vec<Node>, k: nat) -> Seq<Tree>
    decreases nodes, k,
{
    if k == 0 || k > nodes.len() {
        Seq::empty()
    } else {
        views_upto(nodes, (k - 1) as nat).push(node_view(nodes[k - 1]))
    }
}

/// The tree that a node stands for: its name over the trees of its children.
pub closed spec fn node_view(node: Node) -> Tree
    decreases node, 0nat,
{
    Tree { name: node.name@, children: views_upto(node.children, node.children.len() as nat) }
}

proof fn lemma_views_upto(nodes: Vec<Node>, k: nat)
    requires
        k <= nodes.len(),
    ensures
        views_upto(nodes, k).len() == k,
        forall|i: int| 0 <= i < k ==> #[trigger] views_upto(nodes, k)[i] == node_view(nodes@[i]),
    decreases k,
{
    if k > 0 {
        lemma_views_upto(nodes, (k - 1) as nat);
    }
}

impl View for Node {
    type V = Tree;

    open spec fn view(&self) -> Tree {
        node_view(*self)
    }
}

impl Node {
    /// Unfolds the view of a node into the views of its fields.
    pub(crate) proof fn lemma_view(&self)
        ensures
            self@.name == self.name@,
            self@.children == forest_view(self.children@),
    {
        lemma_views_upto(self.children, self.children.len() as nat);
        assert(self@.children =~= forest_view(self.children@));
    }

    /// What the conversion from a pair gives: the converted name over the
    /// converted children.
    pub proof fn lemma_from_pair<S, I>(pair: (S, I)) where String: From<S>, Vec<Node>: From<I>
        ensures
            <Node as vstd::std_specs::convert::FromSpec<(S, I)>>::from_spec(pair)@.name == <
                String as vstd::std_specs::convert::FromSpec<S>
            >::from_spec(pair.0)@,
            <Node as vstd::std_specs::convert::FromSpec<(S, I)>>::from_spec(pair)@.children
                == forest_view(
                <Vec<Node> as vstd::std_specs::convert::FromSpec<I>>::from_spec(pair.1)@,
            ),
    {
        <Node as vstd::std_specs::convert::FromSpec<(S, I)>>::from_spec(pair).lemma_view();
    }

    /// A node with the given name and children.
    pub fn new(name: String, children: Vec<Node>) -> (node: Node)
        ensures
            node@.name == name@,
            node@.children == forest_view(children@),
    {
        let node = Node { name, children };
        proof {
            node.lemma_view();
        }
        node
    }

    /// Gives up the node and hands out its children.
    pub fn take_children(self) -> (children: Vec<Node>)
        ensures
            forest_view(children@) == self@.children,
    {
        proof {
            self.lemma_view();
        }
        self.children
    }
}

impl<S, I> From<(S, I)> for Node where String: From<S>, Vec<Node>: From<I> {
    /// A node from anything that converts to a name and to a list of children.
    fn from(pair: (S, I)) -> (node: Node) {
        Node { name: String::from(pair.0), children: Vec::from(pair.1) }
    }
}

impl<S, I> vstd::std_specs::convert::FromSpecImpl<(S, I)> for Node where String: From<S>, Vec<Node>: From<I> {
    open spec fn obeys_from_spec() -> bool {
        <String as vstd::std_specs::convert::FromSpec<S>>::obeys_from_spec() && <Vec<
            Node,
        > as vstd::std_specs::convert::FromSpec<I>>::obeys_from_spec()
    }

    closed spec fn from_spec(pair: (S, I)) -> Node {
        Node {
            name: <String as vstd::std_specs::convert::FromSpec<S>>::from_spec(pair.0),
            children: <Vec<Node> as vstd::std_specs::convert::FromSpec<I>>::from_spec(pair.1),
        }
    }
}

impl Clone for Node {
    /// A deep copy: the same name over copies of the children.
    fn clone(&self) -> (node: Node)
        ensures
            node@ == self@,
        decreases self,
    {
        let mut children: Vec<Node> = Vec::new();
        let mut i: usize = 0;
        while i < self.children.len()
            invariant
                i <= self.children.len(),
                children.len() == i,
                forall|j: int| 0 <= j < i ==> (#[trigger] children@[j])@ == self.children@[j]@,
            decreases self.children.len() - i,
        {
            let child = self.children[i].clone();
            children.push(child);
            i += 1;
        }
        let node = Node { name: self.name.clone(), children };
        proof {
            node.lemma_view();
            self.lemma_view();
            assert(forest_view(node.children@) =~= forest_view(self.children@));
        }
        node
    }
}

} // verus!
