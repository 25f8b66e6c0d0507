//! Indexing: from the listing of a directory subtree to the tree of the query
//! and data files in it.
//!
//! Reading the file system is left to the caller, who hands over what was read
//! as a value of [`Entry`]. Everything that is decided on the way (which files
//! count, which directories are kept, how deep to look) is decided here.

use vstd::prelude::*;
use crate::classify::{classify, has_known_extension, kind_of, FileKind};
use crate::error::{IndexError, IndexErrorView};
use crate::tree::{
    lemma_node_view, lemma_sound_inside, node_sound, nodes_sound, tree_node_at, DirectoryTree,
    Node, NodeView, TreeView,
};

verus! {

/// How many levels of directories below the root are looked into. A directory
/// that lies deeper is treated as empty, which keeps a walk finite where
/// symbolic links form a cycle.
pub const MAX_DEPTH: usize = 64;

/// One entry of a directory listing.
#[derive(Debug, PartialEq, Eq)]
pub enum Entry {
    /// Anything that is not a directory.
    File { name: String, path: String },
    /// A directory with its own listing, or with `None` where it could not be
    /// read or was not read.
    Directory { name: String, path: String, contents: Option<Vec<Entry>> },
}

/// The mathematical value of an [`Entry`].
pub enum EntryView {
    File { name: Seq<char>, path: Seq<char> },
    Directory { name: Seq<char>, path: Seq<char>, contents: Option<Seq<EntryView>> },
}

/// The value of `entry`: its texts as sequences of characters and its listing
/// by the values of its entries.
pub open spec fn entry_view(entry: Entry) -> EntryView
    decreases entry,
{
    match entry {
        Entry::File { name, path } => EntryView::File { name: name@, path: path@ },
        Entry::Directory { name, path, contents } => EntryView::Directory {
            name: name@,
            path: path@,
            contents: match contents {
                Some(listing) => Some(
                    Seq::new(
                        listing@.len(),
                        |i: int|
                            if 0 <= i < listing@.len() {
                                entry_view(listing@[i])
                            } else {
                                arbitrary()
                            },
                    ),
                ),
                None => None,
            },
        },
    }
}

impl DeepView for Entry {
    type V = EntryView;

    open spec fn deep_view(&self) -> EntryView {
        entry_view(*self)
    }
}

impl View for Entry {
    type V = EntryView;

    open spec fn view(&self) -> EntryView {
        entry_view(*self)
    }
}

/// An entry of a listing with the role that it was found to have. A directory
/// is tagged before anything is known of what it holds; whether it is shown is
/// decided only once its own entries have been indexed.
#[derive(Debug, PartialEq, Eq)]
pub enum FileEntry {
    Directory { path: String, name: String },
    QueryFile { path: String, name: String },
    DataFile { path: String, name: String },
    Ignored { path: String, name: String },
}

/// The mathematical value of a [`FileEntry`].
pub enum FileEntryView {
    Directory { path: Seq<char>, name: Seq<char> },
    QueryFile { path: Seq<char>, name: Seq<char> },
    DataFile { path: Seq<char>, name: Seq<char> },
    Ignored { path: Seq<char>, name: Seq<char> },
}

impl View for FileEntry {
    type V = FileEntryView;

    open spec fn view(&self) -> FileEntryView {
        match self {
            FileEntry::Directory { path, name } => FileEntryView::Directory {
                path: path@,
                name: name@,
            },
            FileEntry::QueryFile { path, name } => FileEntryView::QueryFile {
                path: path@,
                name: name@,
            },
            FileEntry::DataFile { path, name } => FileEntryView::DataFile {
                path: path@,
                name: name@,
            },
            FileEntry::Ignored { path, name } => FileEntryView::Ignored { path: path@, name: name@ },
        }
    }
}

/// The role of `entry`: a directory is a directory whatever its name; a file
/// is what the extension of its name makes it.
pub open spec fn file_entry_for(entry: EntryView) -> FileEntryView {
    match entry {
        EntryView::Directory { name, path, .. } => FileEntryView::Directory { path, name },
        EntryView::File { name, path } => match kind_of(name) {
            FileKind::Query => FileEntryView::QueryFile { path, name },
            FileKind::Data => FileEntryView::DataFile { path, name },
            FileKind::Ignored => FileEntryView::Ignored { path, name },
        },
    }
}

/// The node that stands for `entry`, found in a directory `depth` levels
/// below the root; `None` where the entry is left out.
///
/// A file stands as a leaf if its extension is a known one. A directory stands
/// with the nodes of its own entries, unless there are none: an empty
/// directory, one that holds nothing of interest at any depth, one that could
/// not be read and one that lies deeper than [`MAX_DEPTH`] are all left out.
pub open spec fn node_for(entry: EntryView, depth: nat) -> Option<NodeView>
    decreases entry,
{
    match file_entry_for(entry) {
        FileEntryView::QueryFile { path, name } => Some(NodeView::QueryFile { path, name }),
        FileEntryView::DataFile { path, name } => Some(NodeView::DataFile { path, name }),
        FileEntryView::Ignored { .. } => None,
        FileEntryView::Directory { name, .. } => match entry {
            EntryView::Directory { contents: Some(listing), .. } => {
                if depth < MAX_DEPTH && nodes_for(listing, depth + 1).len() > 0 {
                    Some(NodeView::Directory { name, children: nodes_for(listing, depth + 1) })
                } else {
                    None
                }
            },
            _ => None,
        },
    }
}

/// The nodes that stand for the entries of a directory `depth` levels below
/// the root, in the order of the listing.
pub open spec fn nodes_for(entries: Seq<EntryView>, depth: nat) -> Seq<NodeView>
    decreases entries,
{
    if entries.len() == 0 {
        Seq::empty()
    } else {
        let before = nodes_for(entries.drop_last(), depth);
        match node_for(entries.last(), depth) {
            Some(node) => before.push(node),
            None => before,
        }
    }
}

/// The tree of a root directory called `name` with the listing `entries`.
pub open spec fn tree_for(name: Seq<char>, entries: Seq<EntryView>) -> TreeView {
    TreeView { name, children: nodes_for(entries, 0) }
}

/// The value of a directory entry holds the values of its listing's entries.
pub proof fn lemma_directory_view(entry: Entry)
    ensures
        entry matches Entry::Directory { name, path, contents } ==> entry.deep_view()
            == (EntryView::Directory {
            name: name@,
            path: path@,
            contents: contents.deep_view(),
        }),
{
    match entry {
        Entry::Directory { name, path, contents } => {
            match contents {
                Some(listing) => {
                    assert(entry.deep_view()->contents->0 =~= listing.deep_view());
                },
                None => {},
            }
        },
        _ => {},
    }
}

/// Indexing yields sound nodes only, whatever the listing holds.
pub proof fn lemma_nodes_sound(entries: Seq<EntryView>, depth: nat)
    ensures
        nodes_sound(nodes_for(entries, depth)),
    decreases entries,
{
    if entries.len() > 0 {
        lemma_nodes_sound(entries.drop_last(), depth);
        lemma_node_sound(entries.last(), depth);
    }
}

/// The node that stands for an entry is sound.
pub proof fn lemma_node_sound(entry: EntryView, depth: nat)
    ensures
        node_for(entry, depth) matches Some(node) ==> node_sound(node),
    decreases entry,
{
    match entry {
        EntryView::Directory { contents: Some(listing), .. } => {
            lemma_nodes_sound(listing, depth + 1);
        },
        _ => {},
    }
}

/// Tags an entry of a listing with its role.
pub fn classify_entry(entry: &Entry) -> (tagged: FileEntry)
    ensures
        tagged@ == file_entry_for(entry.deep_view()),
{
    match entry {
        Entry::Directory { name, path, .. } => FileEntry::Directory {
            path: path.clone(),
            name: name.clone(),
        },
        Entry::File { name, path } => match classify(name.as_str()) {
            FileKind::Query => FileEntry::QueryFile { path: path.clone(), name: name.clone() },
            FileKind::Data => FileEntry::DataFile { path: path.clone(), name: name.clone() },
            FileKind::Ignored => FileEntry::Ignored { path: path.clone(), name: name.clone() },
        },
    }
}

/// The node for one entry found `depth` levels below the root, if it gets one.
fn index_entry(entry: &Entry, depth: usize) -> (node: Option<Node>)
    ensures
        node.deep_view() == node_for(entry.deep_view(), depth as nat),
    decreases entry,
{
    proof {
        lemma_directory_view(*entry);
    }
    match classify_entry(entry) {
        FileEntry::QueryFile { path, name } => Some(Node::QueryFile { path, name }),
        FileEntry::DataFile { path, name } => Some(Node::DataFile { path, name }),
        FileEntry::Ignored { .. } => None,
        FileEntry::Directory { name, .. } => match entry {
            Entry::Directory { contents: Some(listing), .. } => {
                if depth < MAX_DEPTH {
                    let children = index_entries(listing, depth + 1);
                    if children.len() > 0 {
                        let node = Node::Directory { name, children };
                        proof {
                            lemma_node_view(node);
                        }
                        Some(node)
                    } else {
                        None
                    }
                } else {
                    None
                }
            },
            _ => None,
        },
    }
}

/// The nodes for the entries of a directory `depth` levels below the root.
fn index_entries(entries: &Vec<Entry>, depth: usize) -> (nodes: Vec<Node>)
    ensures
        nodes.deep_view() == nodes_for(entries.deep_view(), depth as nat),
    decreases entries,
{
    let mut nodes: Vec<Node> = Vec::new();
    let mut i: usize = 0;
    while i < entries.len()
        invariant
            i <= entries.len(),
            nodes.deep_view() == nodes_for(entries.deep_view().take(i as int), depth as nat),
        decreases entries.len() - i,
    {
        let ghost before = nodes.deep_view();
        let found = index_entry(&entries[i], depth);
        proof {
            let upto = entries.deep_view().take(i + 1);
            assert(upto.drop_last() =~= entries.deep_view().take(i as int));
            assert(upto.last() == entries[i as int].deep_view());
        }
        match found {
            Some(node) => {
                nodes.push(node);
                proof {
                    assert(nodes.deep_view() =~= before.push(node.deep_view()));
                }
            },
            None => {},
        }
        i += 1;
    }
    proof {
        assert(entries.deep_view().take(i as int) =~= entries.deep_view());
    }
    nodes
}

/// Indexes the root directory called `name` whose listing is `entries`.
///
/// The tree holds, in the order of the listing, a leaf for every query and
/// data file and a node for every directory that holds at least one such file
/// at some depth within [`MAX_DEPTH`]; nothing else. The listing is taken as
/// it is given: to have the same tree on every machine, sort each listing by
/// name before handing it over.
pub fn index_listing(name: &str, entries: &Vec<Entry>) -> (tree: DirectoryTree)
    ensures
        tree@ == tree_for(name@, entries.deep_view()),
        nodes_sound(tree@.children),
{
    proof {
        lemma_nodes_sound(entries.deep_view(), 0);
    }
    DirectoryTree { name: name.to_string(), children: index_entries(entries, 0) }
}

/// What reading the root directory gave.
#[derive(Debug, PartialEq, Eq)]
pub enum RootListing {
    /// The directory was read; these are its entries.
    Listed(Vec<Entry>),
    /// There is no such directory.
    Missing,
    /// The directory is there and could not be read.
    Unreadable,
}

/// Indexes the root directory at `path`, called `name`, from what reading it
/// gave.
///
/// A root that could not be read is an error. A directory below the root that
/// could not be read is none: it is left out like an empty one.
pub fn index(path: &str, name: &str, listing: &RootListing) -> (result: Result<
    DirectoryTree,
    IndexError,
>)
    ensures
        match *listing {
            RootListing::Listed(entries) => result matches Ok(tree) && tree@ == tree_for(
                name@,
                entries.deep_view(),
            ) && nodes_sound(tree@.children),
            RootListing::Missing => result matches Err(error) && error@
                == IndexErrorView::NotFound,
            RootListing::Unreadable => result matches Err(error) && error@ == (
            IndexErrorView::Io { path: path@ }),
        },
{
    match listing {
        RootListing::Listed(entries) => Ok(index_listing(name, entries)),
        RootListing::Missing => Err(IndexError::NotFound),
        RootListing::Unreadable => Err(IndexError::Io { path: path.to_string() }),
    }
}

/// The directory to index: the one that was asked for, or the working
/// directory where none was.
pub fn root_or_working_directory(root: Option<String>, working_directory: String) -> (path: String)
    ensures
        path@ == match root {
            Some(asked) => asked@,
            None => working_directory@,
        },
{
    match root {
        Some(asked) => asked,
        None => working_directory,
    }
}

/// Whether a directory found in a directory `depth` levels below the root is
/// still looked into.
pub fn may_descend(depth: usize) -> (allowed: bool)
    ensures
        allowed == (depth < MAX_DEPTH),
{
    depth < MAX_DEPTH
}

/// Every file in an indexed tree, at any depth, has the extension that its
/// tag stands for: a query file `sql`, a data file `csv`, `xlsx` or `parquet`,
/// in any mix of upper and lower case. No file with another extension, or
/// with none, is in the tree.
pub proof fn lemma_leaf_extensions(name: Seq<char>, entries: Seq<EntryView>, route: Seq<int>)
    ensures
        match tree_node_at(tree_for(name, entries), route) {
            Some(NodeView::QueryFile { name: leaf, .. }) => kind_of(leaf) == FileKind::Query
                && has_known_extension(leaf),
            Some(NodeView::DataFile { name: leaf, .. }) => kind_of(leaf) == FileKind::Data
                && has_known_extension(leaf),
            _ => true,
        },
{
    lemma_nodes_sound(entries, 0);
    let tree = tree_for(name, entries);
    if route.len() > 0 && 0 <= route[0] < tree.children.len() {
        lemma_sound_inside(tree.children[route[0]], route.drop_first());
    }
}

/// No directory in an indexed tree, at any depth, is without children: an
/// empty directory, and one with nothing but ignored files and such
/// directories in it, is not in the tree.
pub proof fn lemma_no_empty_directory(name: Seq<char>, entries: Seq<EntryView>, route: Seq<int>)
    ensures
        tree_node_at(tree_for(name, entries), route) matches Some(
            NodeView::Directory { children, .. },
        ) ==> children.len() > 0,
{
    lemma_nodes_sound(entries, 0);
    let tree = tree_for(name, entries);
    if route.len() > 0 && 0 <= route[0] < tree.children.len() {
        lemma_sound_inside(tree.children[route[0]], route.drop_first());
    }
}

/// Indexing twice what reads the same gives the same tree: two listings of
/// equal value, under root names of equal value, have trees of equal value.
pub proof fn lemma_same_listing_same_tree(
    first_name: &str,
    first: &Vec<Entry>,
    second_name: &str,
    second: &Vec<Entry>,
)
    requires
        first_name@ == second_name@,
        first.deep_view() == second.deep_view(),
    ensures
        tree_for(first_name@, first.deep_view()) == tree_for(second_name@, second.deep_view()),
{
}

} // verus!
