//! The markup that shows a table and a directory tree in the explorer's
//! window. Texts are put into the markup as they are.

use vstd::prelude::*;
use vstd::string::StringExecFns;
use crate::table::{RenderedTable, TableView};
use crate::tree::{lemma_node_view, DirectoryTree, Node, NodeView, TreeView};

verus! {

/// What stands before the header cells of a table.
pub const TABLE_OPEN: &'static str = r#"<table id="table" class="table table-md table-pin-rows"><thead><tr>"#;

/// What stands between the header cells and the rows of a table.
pub const TABLE_MIDDLE: &'static str = r#"</tr></thead><tbody>"#;

/// What stands after the rows of a table.
pub const TABLE_CLOSE: &'static str = r#"</tbody></table>"#;

/// What stands before the name of the root directory.
pub const ROOT_OPEN: &'static str = r#"<li>
            <details open>
                <summary>
                    <svg xmlns="http://www.w3.org/2000/svg" class="h-4 w-4" fill="none" viewBox="0 0 24 24" stroke="currentColor">
                        <path stroke-linecap="round" stroke-linejoin="round" stroke-width="2" d="M3 7v10a2 2 0 002 2h14a2 2 0 002-2V9a2 2 0 00-2-2h-6l-2-2H5a2 2 0 00-2 2z" />
                    </svg>
                    "#;

/// What stands between the name of the root directory and its nodes.
pub const ROOT_MIDDLE: &'static str = r#"
                </summary>
                <ul class="menu">"#;

/// What stands after the nodes of the root directory.
pub const ROOT_CLOSE: &'static str = r#"</ul>
            </details>
        </li>"#;

/// What stands before the name of a directory below the root.
pub const DIRECTORY_OPEN: &'static str = r#"<li>
                            <details>
                                <summary>
                                    <svg xmlns="http://www.w3.org/2000/svg" class="h-4 w-4" fill="none" viewBox="0 0 24 24" stroke="currentColor">
                                        <path stroke-linecap="round" stroke-linejoin="round" stroke-width="2" d="M3 7v10a2 2 0 002 2h14a2 2 0 002-2V9a2 2 0 00-2-2h-6l-2-2H5a2 2 0 00-2 2z" />
                                    </svg>
                                    "#;

/// What stands between the name of a directory and its nodes.
pub const DIRECTORY_MIDDLE: &'static str = r#"
                                </summary>
                                <ul class="menu ml-4">"#;

/// What stands after the nodes of a directory.
pub const DIRECTORY_CLOSE: &'static str = r#"</ul>
                            </details>
                        </li>"#;

/// What stands before the path of a query file.
pub const QUERY_OPEN: &'static str = r#"<li>
                            <a class="sql-file" data-path=""#;

/// What stands between the path and the name of a query file.
pub const QUERY_MIDDLE: &'static str = r#"">
                                <svg xmlns="http://www.w3.org/2000/svg" class="h-4 w-4" fill="none" viewBox="0 0 24 24" stroke="currentColor">
                                    <path stroke-linecap="round" stroke-linejoin="round" stroke-width="2" d="M9 12h6m-6 4h6m2 5H7a2 2 0 01-2-2V5a2 2 0 012-2h5.586a1 1 0 01.707.293l5.414 5.414a1 1 0 01.293.707V19a2 2 0 01-2 2z" />
                                </svg>
                                "#;

/// What stands after the name of a query file.
pub const QUERY_CLOSE: &'static str = r#"
                            </a>
                        </li>"#;

/// What stands before the name of a data file.
pub const DATA_OPEN: &'static str = r#"<li>
                            <a class="data-file">
                                <svg xmlns="http://www.w3.org/2000/svg" class="h-4 w-4" fill="none" viewBox="0 0 24 24" stroke="currentColor">
                                    <path stroke-linecap="round" stroke-linejoin="round" stroke-width="2" d="M4 7v10c0 2 1 3 3 3h10c2 0 3-1 3-3V7c0-2-1-3-3-3H7c-2 0-3 1-3 3z" />
                                    <path stroke-linecap="round" stroke-linejoin="round" stroke-width="2" d="M9 17v-6" />
                                    <path stroke-linecap="round" stroke-linejoin="round" stroke-width="2" d="M12 17v-3" />
                                    <path stroke-linecap="round" stroke-linejoin="round" stroke-width="2" d="M15 17v-5" />
                                </svg>
                                "#;

/// What stands after the name of a data file.
pub const DATA_CLOSE: &'static str = r#"
                            </a>
                        </li>"#;

/// Every text of `items` between `open` and `close`, one after the other.
pub open spec fn wrapped(items: Seq<Seq<char>>, open: Seq<char>, close: Seq<char>) -> Seq<char>
    decreases items.len(),
{
    if items.len() == 0 {
        Seq::empty()
    } else {
        wrapped(items.drop_last(), open, close) + open + items.last() + close
    }
}

/// The markup of the rows of a table: each row between `<tr>` and `</tr>`,
/// each of its cells between `<td>` and `</td>`.
pub open spec fn rows_markup(rows: Seq<Seq<Seq<char>>>) -> Seq<char>
    decreases rows.len(),
{
    if rows.len() == 0 {
        Seq::empty()
    } else {
        rows_markup(rows.drop_last()) + "<tr>"@ + wrapped(rows.last(), "<td>"@, "</td>"@)
            + "</tr>"@
    }
}

/// The markup of a table: a header row of `<th>` cells, then the rows.
pub open spec fn table_markup(table: TableView) -> Seq<char> {
    TABLE_OPEN@ + wrapped(table.header, "<th>"@, "</th>"@) + TABLE_MIDDLE@ + rows_markup(
        table.rows,
    ) + TABLE_CLOSE@
}

/// Appends every text of `items`, each between `open` and `close`.
fn push_wrapped(markup: &mut String, items: &Vec<String>, open: &str, close: &str)
    ensures
        final(markup)@ == old(markup)@ + wrapped(items.deep_view(), open@, close@),
{
    let ghost before = markup@;
    let mut i: usize = 0;
    while i < items.len()
        invariant
            i <= items.len(),
            markup@ == before + wrapped(items.deep_view().take(i as int), open@, close@),
        decreases items.len() - i,
    {
        proof {
            let upto = items.deep_view().take(i + 1);
            assert(upto.drop_last() =~= items.deep_view().take(i as int));
            assert(upto.last() == items[i as int]@);
        }
        markup.append(open);
        markup.append(items[i].as_str());
        markup.append(close);
        i += 1;
        proof {
            assert(markup@ =~= before + wrapped(
                items.deep_view().take(i as int),
                open@,
                close@,
            ));
        }
    }
    proof {
        assert(items.deep_view().take(i as int) =~= items.deep_view());
    }
}

/// The markup that shows `table`.
pub fn table_to_markup(table: &RenderedTable) -> (markup: String)
    ensures
        markup@ == table_markup(table@),
{
    let mut markup = String::from_str(TABLE_OPEN);
    push_wrapped(&mut markup, &table.header, "<th>", "</th>");
    markup.append(TABLE_MIDDLE);
    let ghost before = markup@;
    let mut row: usize = 0;
    while row < table.rows.len()
        invariant
            row <= table.rows.len(),
            markup@ == before + rows_markup(table.rows.deep_view().take(row as int)),
        decreases table.rows.len() - row,
    {
        proof {
            let upto = table.rows.deep_view().take(row + 1);
            assert(upto.drop_last() =~= table.rows.deep_view().take(row as int));
            assert(upto.last() == table.rows[row as int].deep_view());
        }
        markup.append("<tr>");
        push_wrapped(&mut markup, &table.rows[row], "<td>", "</td>");
        markup.append("</tr>");
        row += 1;
        proof {
            assert(markup@ =~= before + rows_markup(table.rows.deep_view().take(row as int)));
        }
    }
    proof {
        assert(table.rows.deep_view().take(row as int) =~= table.rows.deep_view());
    }
    markup.append(TABLE_CLOSE);
    markup
}

/// The markup of one node: a list item that shows a file by its name, a query
/// file with its path beside it, and a directory by its name and, folded
/// away, the markup of its nodes.
pub open spec fn node_markup(node: NodeView) -> Seq<char>
    decreases node,
{
    match node {
        NodeView::QueryFile { path, name } => QUERY_OPEN@ + path + QUERY_MIDDLE@ + name
            + QUERY_CLOSE@,
        NodeView::DataFile { name, .. } => DATA_OPEN@ + name + DATA_CLOSE@,
        NodeView::Directory { name, children } => DIRECTORY_OPEN@ + name + DIRECTORY_MIDDLE@
            + nodes_markup(children) + DIRECTORY_CLOSE@,
    }
}

/// The markup of the nodes of one directory, one after the other.
pub open spec fn nodes_markup(nodes: Seq<NodeView>) -> Seq<char>
    decreases nodes,
{
    if nodes.len() == 0 {
        Seq::empty()
    } else {
        nodes_markup(nodes.drop_last()) + node_markup(nodes.last())
    }
}

/// The markup of a tree: the root directory, unfolded, with the markup of its
/// nodes.
pub open spec fn tree_markup(tree: TreeView) -> Seq<char> {
    ROOT_OPEN@ + tree.name + ROOT_MIDDLE@ + nodes_markup(tree.children) + ROOT_CLOSE@
}

/// Appends the markup of `node`.
fn push_node(markup: &mut String, node: &Node)
    ensures
        final(markup)@ == old(markup)@ + node_markup(node.deep_view()),
    decreases node,
{
    match node {
        Node::QueryFile { path, name } => {
            markup.append(QUERY_OPEN);
            markup.append(path.as_str());
            markup.append(QUERY_MIDDLE);
            markup.append(name.as_str());
            markup.append(QUERY_CLOSE);
        },
        Node::DataFile { name, .. } => {
            markup.append(DATA_OPEN);
            markup.append(name.as_str());
            markup.append(DATA_CLOSE);
        },
        Node::Directory { name, children } => {
            proof {
                lemma_node_view(*node);
            }
            markup.append(DIRECTORY_OPEN);
            markup.append(name.as_str());
            markup.append(DIRECTORY_MIDDLE);
            push_nodes(markup, children);
            markup.append(DIRECTORY_CLOSE);
        },
    }
}

/// Appends the markup of `nodes`.
fn push_nodes(markup: &mut String, nodes: &Vec<Node>)
    ensures
        final(markup)@ == old(markup)@ + nodes_markup(nodes.deep_view()),
    decreases nodes,
{
    let ghost before = markup@;
    let mut i: usize = 0;
    while i < nodes.len()
        invariant
            i <= nodes.len(),
            markup@ == before + nodes_markup(nodes.deep_view().take(i as int)),
        decreases nodes.len() - i,
    {
        proof {
            let upto = nodes.deep_view().take(i + 1);
            assert(upto.drop_last() =~= nodes.deep_view().take(i as int));
            assert(upto.last() == nodes[i as int].deep_view());
        }
        push_node(markup, &nodes[i]);
        i += 1;
        proof {
            assert(markup@ =~= before + nodes_markup(nodes.deep_view().take(i as int)));
        }
    }
    proof {
        assert(nodes.deep_view().take(i as int) =~= nodes.deep_view());
    }
}

/// The markup that shows `tree`.
pub fn tree_to_markup(tree: &DirectoryTree) -> (markup: String)
    ensures
        markup@ == tree_markup(tree@),
{
    let mut markup = String::from_str(ROOT_OPEN);
    markup.append(tree.name.as_str());
    markup.append(ROOT_MIDDLE);
    push_nodes(&mut markup, &tree.children);
    markup.append(ROOT_CLOSE);
    markup
}

} // verus!
