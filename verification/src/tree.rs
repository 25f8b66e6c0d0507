//! The tree that indexing produces, and what it means for such a tree to be
//! sound.

use vstd::prelude::*;
use crate::classify::{kind_of, FileKind};

verus! {

/// A node below the root of a directory tree.
#[derive(Debug, PartialEq, Eq)]
pub enum Node {
    /// A query definition file.
    QueryFile { path: String, name: String },
    /// A dataset file.
    DataFile { path: String, name: String },
    /// A directory, with the nodes found in it in the order of its listing.
    Directory { name: String, children: Vec<Node> },
}

/// The mathematical value of a [`Node`].
pub enum NodeView {
    QueryFile { path: Seq<char>, name: Seq<char> },
    DataFile { path: Seq<char>, name: Seq<char> },
    Directory { name: Seq<char>, children: Seq<NodeView> },
}

/// The value of `node`: its texts as sequences of characters and its children
/// by their own values.
pub open spec fn node_view(node: Node) -> NodeView
    decreases node,
{
    match node {
        Node::QueryFile { path, name } => NodeView::QueryFile { path: path@, name: name@ },
        Node::DataFile { path, name } => NodeView::DataFile { path: path@, name: name@ },
        Node::Directory { name, children } => NodeView::Directory {
            name: name@,
            children: Seq::new(
                children@.len(),
                |i: int|
                    if 0 <= i < children@.len() {
                        node_view(children@[i])
                    } else {
                        arbitrary()
                    },
            ),
        },
    }
}

impl DeepView for Node {
    type V = NodeView;

    open spec fn deep_view(&self) -> NodeView {
        node_view(*self)
    }
}

impl View for Node {
    type V = NodeView;

    open spec fn view(&self) -> NodeView {
        node_view(*self)
    }
}

/// The result of indexing a directory: the directory's own name and the nodes
/// found in it. The root is kept even when nothing was found in it.
#[derive(Debug, PartialEq, Eq)]
pub struct DirectoryTree {
    pub name: String,
    pub children: Vec<Node>,
}

/// The mathematical value of a [`DirectoryTree`].
pub struct TreeView {
    pub name: Seq<char>,
    pub children: Seq<NodeView>,
}

impl View for DirectoryTree {
    type V = TreeView;

    open spec fn view(&self) -> TreeView {
        TreeView { name: self.name@, children: self.children.deep_view() }
    }
}

/// The value of a directory node holds the values of its children.
pub proof fn lemma_node_view(node: Node)
    ensures
        node matches Node::Directory { name, children } ==> node.deep_view()
            == (NodeView::Directory { name: name@, children: children.deep_view() }),
{
    match node {
        Node::Directory { name, children } => {
            assert(node.deep_view()->Directory_children =~= children.deep_view());
        },
        _ => {},
    }
}

/// A node is sound when every file in it is of the kind that its tag says, and
/// every directory in it, at any depth, has at least one child.
pub open spec fn node_sound(node: NodeView) -> bool
    decreases node,
{
    match node {
        NodeView::QueryFile { name, .. } => kind_of(name) == FileKind::Query,
        NodeView::DataFile { name, .. } => kind_of(name) == FileKind::Data,
        NodeView::Directory { children, .. } => {
            &&& children.len() > 0
            &&& forall|i: int| 0 <= i < children.len() ==> node_sound(#[trigger] children[i])
        },
    }
}

/// Every node of the sequence is sound.
pub open spec fn nodes_sound(nodes: Seq<NodeView>) -> bool {
    forall|i: int| 0 <= i < nodes.len() ==> node_sound(#[trigger] nodes[i])
}

/// The node reached from `node` by following `route`, a sequence of child
/// positions; `None` where the route leaves the tree.
pub open spec fn node_at(node: NodeView, route: Seq<int>) -> Option<NodeView>
    decreases route.len(),
{
    if route.len() == 0 {
        Some(node)
    } else {
        match node {
            NodeView::Directory { children, .. } => {
                if 0 <= route[0] < children.len() {
                    node_at(children[route[0]], route.drop_first())
                } else {
                    None
                }
            },
            _ => None,
        }
    }
}

/// The node of `tree` reached by `route`, which names a child of the root
/// first. The root itself is no node.
pub open spec fn tree_node_at(tree: TreeView, route: Seq<int>) -> Option<NodeView> {
    if route.len() > 0 && 0 <= route[0] < tree.children.len() {
        node_at(tree.children[route[0]], route.drop_first())
    } else {
        None
    }
}

/// Every node inside a sound node is sound.
pub proof fn lemma_sound_inside(node: NodeView, route: Seq<int>)
    requires
        node_sound(node),
    ensures
        node_at(node, route) matches Some(inner) ==> node_sound(inner),
    decreases route.len(),
{
    if route.len() > 0 {
        match node {
            NodeView::Directory { children, .. } => {
                if 0 <= route[0] < children.len() {
                    lemma_sound_inside(children[route[0]], route.drop_first());
                }
            },
            _ => {},
        }
    }
}

impl DirectoryTree {
    /// Whether the tree holds no node at all.
    pub fn is_empty(&self) -> (empty: bool)
        ensures
            empty == (self@.children.len() == 0),
    {
        self.children.len() == 0
    }
}

} // verus!
