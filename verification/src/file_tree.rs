//! The sidebar's vault tree and the rows it shows: folders, and inside an
//! expanded folder its children, one level deeper.
use vstd::prelude::*;

verus! {

/// A node of the vault tree: a folder with its children, or a note file
/// carrying its summary.
#[derive(Debug)]
pub enum FileTreeNode<S> {
    Folder { name: String, relative_path: String, children: Vec<FileTreeNode<S>> },
    File(S),
}

/// A row of the sidebar tree, borrowing from the tree it shows.
#[derive(Debug)]
pub enum VisibleTreeItem<'a, S> {
    Folder { name: &'a str, relative_path: &'a str, depth: usize, is_expanded: bool, is_empty: bool },
    File { summary: &'a S, depth: usize },
}

/// What a row shows, as plain values.
pub enum VisibleEntry<S> {
    Folder { name: Seq<char>, relative_path: Seq<char>, depth: int, is_expanded: bool, is_empty: bool },
    File { summary: S, depth: int },
}

impl<'a, S> VisibleTreeItem<'a, S> {
    /// The row as plain values.
    pub open spec fn entry(self) -> VisibleEntry<S> {
        match self {
            VisibleTreeItem::Folder { name, relative_path, depth, is_expanded, is_empty } => VisibleEntry::Folder {
                name: name@,
                relative_path: relative_path@,
                depth: depth as int,
                is_expanded,
                is_empty,
            },
            VisibleTreeItem::File { summary, depth } => VisibleEntry::File { summary: *summary, depth: depth as int },
        }
    }
}

/// The rows of a list of rows, as plain values.
pub open spec fn entries<'a, S>(items: Seq<VisibleTreeItem<'a, S>>) -> Seq<VisibleEntry<S>> {
    items.map_values(|item: VisibleTreeItem<'a, S>| item.entry())
}

/// The paths of the expanded folders.
pub open spec fn path_views(paths: Seq<String>) -> Seq<Seq<char>> {
    paths.map_values(|p: String| p@)
}

/// The rows shown for a list of sibling nodes at `depth`.
pub open spec fn visible_rows<S>(nodes: Seq<FileTreeNode<S>>, depth: int, expanded: Seq<Seq<char>>) -> Seq<
    VisibleEntry<S>,
>
    decreases nodes,
{
    if nodes.len() == 0 {
        Seq::empty()
    } else {
        visible_rows(nodes.drop_last(), depth, expanded) + visible_rows_of_node(nodes.last(), depth, expanded)
    }
}

/// The rows shown for one node at `depth`: a file is one row; a folder is
/// one row, followed by its children's rows when it is expanded.
pub open spec fn visible_rows_of_node<S>(node: FileTreeNode<S>, depth: int, expanded: Seq<Seq<char>>) -> Seq<
    VisibleEntry<S>,
>
    decreases node,
{
    match node {
        FileTreeNode::Folder { name, relative_path, children } => {
            let is_expanded = expanded.contains(relative_path@);
            seq![
                VisibleEntry::Folder {
                    name: name@,
                    relative_path: relative_path@,
                    depth,
                    is_expanded,
                    is_empty: children.len() == 0,
                },
            ] + if is_expanded && children.len() > 0 {
                visible_rows(children@, depth + 1, expanded)
            } else {
                Seq::empty()
            }
        },
        FileTreeNode::File(summary) => seq![VisibleEntry::File { summary, depth }],
    }
}


/// Height of a list of sibling nodes: the most folders nested below it.
pub open spec fn tree_height<S>(nodes: Seq<FileTreeNode<S>>) -> int
    decreases nodes,
{
    if nodes.len() == 0 {
        0
    } else {
        let rest = tree_height(nodes.drop_last());
        let last = node_height(nodes.last());
        if rest < last { last } else { rest }
    }
}

/// Height of one node: 0 for a file, one more than its children for a folder.
pub open spec fn node_height<S>(node: FileTreeNode<S>) -> int
    decreases node,
{
    match node {
        FileTreeNode::Folder { children, .. } => 1 + tree_height(children@),
        FileTreeNode::File(_) => 0,
    }
}

/// Each node is at most as high as the list holding it, and heights are
/// never negative.
pub proof fn lemma_node_height_bounded<S>(nodes: Seq<FileTreeNode<S>>, i: int)
    requires
        0 <= i < nodes.len(),
    ensures
        0 <= node_height(nodes[i]) <= tree_height(nodes),
    decreases nodes.len(),
{
    lemma_height_nonnegative(nodes);
    lemma_node_height_nonnegative(nodes[i]);
    if i < nodes.len() - 1 {
        lemma_node_height_bounded(nodes.drop_last(), i);
    }
}

/// Heights are never negative.
pub proof fn lemma_height_nonnegative<S>(nodes: Seq<FileTreeNode<S>>)
    ensures
        tree_height(nodes) >= 0,
    decreases nodes.len(),
{
    if nodes.len() > 0 {
        lemma_height_nonnegative(nodes.drop_last());
    }
}

/// A node's height is never negative.
pub proof fn lemma_node_height_nonnegative<S>(node: FileTreeNode<S>)
    ensures
        node_height(node) >= 0,
{
    match node {
        FileTreeNode::Folder { children, .. } => lemma_height_nonnegative(children@),
        FileTreeNode::File(_) => {},
    }
}

/// Whether `path` is among the expanded folder paths.
pub fn contains_path(expanded: &Vec<String>, path: &String) -> (found: bool)
    ensures
        found == path_views(expanded@).contains(path@),
{
    let mut i: usize = 0;
    while i < expanded.len()
        invariant
            0 <= i <= expanded.len(),
            forall|j: int| 0 <= j < i ==> expanded@[j]@ != path@,
        decreases expanded.len() - i,
    {
        if expanded[i] == *path {
            assert(path_views(expanded@)[i as int] == path@);
            return true;
        }
        i = i + 1;
    }
    proof {
        if path_views(expanded@).contains(path@) {
            let j = choose|j: int| 0 <= j < path_views(expanded@).len() && path_views(expanded@)[j] == path@;
            assert(expanded@[j]@ == path@);
        }
    }
    false
}

/// Appends the sidebar rows of `nodes`, shown at `depth`: each folder, and
/// below an expanded folder that has children, the rows of its children one
/// level deeper; each file as one row.
pub fn flatten_visible_items<'a, S>(
    nodes: &'a [FileTreeNode<S>],
    depth: usize,
    expanded: &Vec<String>,
    out: &mut Vec<VisibleTreeItem<'a, S>>,
)
    requires
        depth + tree_height(nodes@) <= usize::MAX,
    ensures
        entries(final(out)@) == entries(old(out)@) + visible_rows(nodes@, depth as int, path_views(expanded@)),
    decreases nodes@,
{
    let ghost start = out@;
    let ghost ev = path_views(expanded@);
    let mut i: usize = 0;
    while i < nodes.len()
        invariant
            0 <= i <= nodes.len(),
            depth + tree_height(nodes@) <= usize::MAX,
            ev == path_views(expanded@),
            entries(out@) == entries(start) + visible_rows(nodes@.take(i as int), depth as int, ev),
        decreases nodes.len() - i,
    {
        let ghost before = out@;
        let node = &nodes[i];
        proof {
            lemma_node_height_bounded(nodes@, i as int);
        }
        match node {
            FileTreeNode::Folder { name, relative_path, children } => {
                let is_expanded = contains_path(expanded, relative_path);
                out.push(
                    VisibleTreeItem::Folder {
                        name: name.as_str(),
                        relative_path: relative_path.as_str(),
                        depth,
                        is_expanded,
                        is_empty: children.len() == 0,
                    },
                );
                proof {
                    assert(entries(out@) =~= entries(before).push(out@.last().entry()));
                }
                if is_expanded && children.len() != 0 {
                    proof {
                        lemma_height_nonnegative(children@);
                        assert(node_height(nodes@[i as int]) == 1 + tree_height(children@));
                    }
                    flatten_visible_items(children.as_slice(), depth + 1, expanded, out);
                }
            },
            FileTreeNode::File(summary) => {
                out.push(VisibleTreeItem::File { summary, depth });
                proof {
                    assert(entries(out@) =~= entries(before).push(out@.last().entry()));
                }
            },
        }
        proof {
            assert(nodes@.take(i + 1).drop_last() =~= nodes@.take(i as int));
            assert(entries(out@) =~= entries(before) + visible_rows_of_node(nodes@[i as int], depth as int, ev));
        }
        i = i + 1;
    }
    proof {
        assert(nodes@.take(nodes@.len() as int) =~= nodes@);
    }
}


/// The depth of a row.
pub open spec fn entry_depth<S>(entry: VisibleEntry<S>) -> int {
    match entry {
        VisibleEntry::Folder { depth, .. } => depth,
        VisibleEntry::File { depth, .. } => depth,
    }
}

/// With no folder expanded, the sidebar shows exactly one row per
/// top-level node, all at the top depth.
pub proof fn lemma_collapsed_tree_rows<S>(nodes: Seq<FileTreeNode<S>>, depth: int)
    ensures
        visible_rows(nodes, depth, Seq::empty()).len() == nodes.len(),
        forall|k: int|
            0 <= k < nodes.len() ==> entry_depth(#[trigger] visible_rows(nodes, depth, Seq::empty())[k]) == depth,
    decreases nodes.len(),
{
    if nodes.len() > 0 {
        lemma_collapsed_tree_rows(nodes.drop_last(), depth);
        let prev = visible_rows(nodes.drop_last(), depth, Seq::empty());
        let last = visible_rows_of_node(nodes.last(), depth, Seq::empty());
        match nodes.last() {
            FileTreeNode::Folder { relative_path, .. } => {
                assert(!Seq::<Seq<char>>::empty().contains(relative_path@));
            },
            FileTreeNode::File(_) => {},
        }
        assert(last.len() == 1);
        assert forall|k: int| 0 <= k < nodes.len() implies entry_depth(
            #[trigger] visible_rows(nodes, depth, Seq::empty())[k],
        ) == depth by {
            if k < nodes.len() - 1 {
                assert(visible_rows(nodes, depth, Seq::empty())[k] == prev[k]);
            }
        }
    }
}

/// No row is shallower than the level it was listed at.
pub proof fn lemma_rows_not_shallower<S>(nodes: Seq<FileTreeNode<S>>, depth: int, expanded: Seq<Seq<char>>)
    ensures
        forall|k: int|
            0 <= k < visible_rows(nodes, depth, expanded).len() ==> entry_depth(
                #[trigger] visible_rows(nodes, depth, expanded)[k],
            ) >= depth,
    decreases nodes, 0int,
{
    if nodes.len() > 0 {
        lemma_rows_not_shallower(nodes.drop_last(), depth, expanded);
        lemma_node_rows_not_shallower(nodes.last(), depth, expanded);
        let prev = visible_rows(nodes.drop_last(), depth, expanded);
        let last = visible_rows_of_node(nodes.last(), depth, expanded);
        assert forall|k: int| 0 <= k < visible_rows(nodes, depth, expanded).len() implies entry_depth(
            #[trigger] visible_rows(nodes, depth, expanded)[k],
        ) >= depth by {
            if k < prev.len() {
                assert(visible_rows(nodes, depth, expanded)[k] == prev[k]);
            } else {
                assert(visible_rows(nodes, depth, expanded)[k] == last[k - prev.len()]);
            }
        }
    }
}

/// No row of a node is shallower than the node's level.
pub proof fn lemma_node_rows_not_shallower<S>(node: FileTreeNode<S>, depth: int, expanded: Seq<Seq<char>>)
    ensures
        forall|k: int|
            0 <= k < visible_rows_of_node(node, depth, expanded).len() ==> entry_depth(
                #[trigger] visible_rows_of_node(node, depth, expanded)[k],
            ) >= depth,
    decreases node, 1int,
{
    match node {
        FileTreeNode::Folder { name, relative_path, children } => {
            let is_expanded = expanded.contains(relative_path@);
            if is_expanded && children.len() > 0 {
                lemma_rows_not_shallower(children@, depth + 1, expanded);
                let rows = visible_rows_of_node(node, depth, expanded);
                let inner = visible_rows(children@, depth + 1, expanded);
                assert forall|k: int| 0 <= k < rows.len() implies entry_depth(#[trigger] rows[k]) >= depth by {
                    if k > 0 {
                        assert(rows[k] == inner[k - 1]);
                    }
                }
            }
        },
        FileTreeNode::File(_) => {},
    }
}

/// What the sidebar's main pane shows.
#[derive(Debug, Clone, Copy, PartialEq, Eq, Structural)]
pub enum SidebarPane {
    /// No vault is open: the prompt to open one.
    NoVault,
    /// The results of the sidebar's search.
    SearchResults,
    /// The vault has no entries: the prompts to create a note or import.
    EmptyVault,
    /// The bookmarks, recent notes, projects and the vault tree.
    Tree,
}

/// The pane for a vault that is open or not, the search box's text and
/// whether the vault has entries: the search results as soon as anything
/// is typed.
pub open spec fn sidebar_pane_spec(has_vault: bool, search_query: Seq<char>, has_entries: bool) -> SidebarPane {
    if !has_vault {
        SidebarPane::NoVault
    } else if search_query.len() > 0 {
        SidebarPane::SearchResults
    } else if !has_entries {
        SidebarPane::EmptyVault
    } else {
        SidebarPane::Tree
    }
}

/// Decides what the sidebar's main pane shows.
pub fn sidebar_pane(has_vault: bool, search_query: &str, has_entries: bool) -> (pane: SidebarPane)
    ensures
        pane == sidebar_pane_spec(has_vault, search_query@, has_entries),
{
    if !has_vault {
        SidebarPane::NoVault
    } else if search_query.unicode_len() > 0 {
        SidebarPane::SearchResults
    } else if !has_entries {
        SidebarPane::EmptyVault
    } else {
        SidebarPane::Tree
    }
}

} // verus!
