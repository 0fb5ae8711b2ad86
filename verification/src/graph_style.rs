//! How the graph view draws a node: its fill, outline and opacity follow
//! the focused node (hovered, else selected), the search and the note open
//! in the editor; and when its label is shown.
use vstd::prelude::*;
use crate::properties::{chars_of, trim_spec};
use crate::search::{label_matches_search, lowercase_of, matches_query};
use std::collections::HashSet;

verus! {

/// What the drawing of one node depends on.
#[derive(Debug, Clone, Copy, PartialEq, Eq, Structural)]
pub struct NodeFlags {
    /// The node stands for a link to a note that does not exist.
    pub is_unresolved: bool,
    /// The node stands for a tag.
    pub is_tag: bool,
    /// The node is the note open in the editor.
    pub is_current: bool,
    pub is_selected: bool,
    pub is_hovered: bool,
    /// Some node is hovered or selected.
    pub has_focus: bool,
    /// The node is the focused node or one of its neighbours.
    pub is_connected: bool,
    /// The node's label matches the search (always, for an empty search).
    pub matches_query: bool,
}

/// The colours and line of a drawn node, as SVG attribute values.
#[derive(Debug, Clone, Copy, PartialEq, Eq)]
pub struct NodeStyle {
    pub fill: &'static str,
    pub stroke: &'static str,
    pub stroke_width: &'static str,
    pub opacity: &'static str,
    pub dash: &'static str,
}

/// A node's style as texts: fill, stroke, stroke width, opacity, dash.
pub type StyleTexts = (Seq<char>, Seq<char>, Seq<char>, Seq<char>, Seq<char>);

/// The style texts of a drawn node.
pub open spec fn style_texts(s: NodeStyle) -> StyleTexts {
    (s.fill@, s.stroke@, s.stroke_width@, s.opacity@, s.dash@)
}

/// The style of a node, `community` being the colour of its community (or
/// the plain node colour when communities are not coloured).
pub open spec fn node_style_spec(f: NodeFlags, community: Seq<char>) -> StyleTexts {
    let highlighted = f.is_selected || f.is_hovered;
    let dimmed = f.has_focus && !f.is_connected;
    if f.is_unresolved {
        (
            "transparent"@,
            if highlighted { "var(--graph-node-hover, #7182FF)"@ } else { "var(--text-muted, #8E90A0)"@ },
            "1.5"@,
            if dimmed { "0.20"@ } else { "0.85"@ },
            "3 2"@,
        )
    } else if f.is_tag {
        (
            "#E5A158"@,
            if highlighted { "#FFFFFF"@ } else { "var(--border, #28313C)"@ },
            "1.5"@,
            if dimmed { "0.20"@ } else { "0.95"@ },
            ""@,
        )
    } else if f.has_focus {
        if highlighted {
            (
                if f.is_current {
                    "var(--graph-node-current, #9A4BFF)"@
                } else if f.is_hovered {
                    "var(--graph-node-hover, #7182FF)"@
                } else {
                    community
                },
                if f.is_current { "#D5C7FF"@ } else { "#FFFFFF"@ },
                "2.5"@,
                "1.0"@,
                ""@,
            )
        } else if f.is_connected {
            (community, "var(--border-strong, #383F4F)"@, "2.0"@, "1.0"@, ""@)
        } else {
            (community, "var(--border, #28313C)"@, "1.0"@, "0.18"@, ""@)
        }
    } else {
        (
            if f.is_current { "var(--graph-node-current, #9A4BFF)"@ } else { community },
            if f.is_current { "#D5C7FF"@ } else { "var(--border, #28313C)"@ },
            "1.5"@,
            if f.matches_query { "1.0"@ } else { "0.20"@ },
            ""@,
        )
    }
}

/// Decides how a node is drawn.
pub fn node_style(f: NodeFlags, community: &'static str) -> (style: NodeStyle)
    ensures
        style_texts(style) == node_style_spec(f, community@),
{
    let highlighted = f.is_selected || f.is_hovered;
    let dimmed = f.has_focus && !f.is_connected;
    if f.is_unresolved {
        NodeStyle {
            fill: "transparent",
            stroke: if highlighted { "var(--graph-node-hover, #7182FF)" } else { "var(--text-muted, #8E90A0)" },
            stroke_width: "1.5",
            opacity: if dimmed { "0.20" } else { "0.85" },
            dash: "3 2",
        }
    } else if f.is_tag {
        NodeStyle {
            fill: "#E5A158",
            stroke: if highlighted { "#FFFFFF" } else { "var(--border, #28313C)" },
            stroke_width: "1.5",
            opacity: if dimmed { "0.20" } else { "0.95" },
            dash: "",
        }
    } else if f.has_focus {
        if highlighted {
            NodeStyle {
                fill: if f.is_current {
                    "var(--graph-node-current, #9A4BFF)"
                } else if f.is_hovered {
                    "var(--graph-node-hover, #7182FF)"
                } else {
                    community
                },
                stroke: if f.is_current { "#D5C7FF" } else { "#FFFFFF" },
                stroke_width: "2.5",
                opacity: "1.0",
                dash: "",
            }
        } else if f.is_connected {
            NodeStyle {
                fill: community,
                stroke: "var(--border-strong, #383F4F)",
                stroke_width: "2.0",
                opacity: "1.0",
                dash: "",
            }
        } else {
            NodeStyle { fill: community, stroke: "var(--border, #28313C)", stroke_width: "1.0", opacity: "0.18", dash: "" }
        }
    } else {
        NodeStyle {
            fill: if f.is_current { "var(--graph-node-current, #9A4BFF)" } else { community },
            stroke: if f.is_current { "#D5C7FF" } else { "var(--border, #28313C)" },
            stroke_width: "1.5",
            opacity: if f.matches_query { "1.0" } else { "0.20" },
            dash: "",
        }
    }
}

/// The opacities of a dimmed node.
pub open spec fn is_dimmed_opacity(opacity: Seq<char>) -> bool {
    opacity == "0.20"@ || opacity == "0.18"@
}

/// While a node is focused, every node that is neither highlighted itself
/// nor a neighbour of the focused node is dimmed, and the neighbours are
/// not. A selected note stays in full colour even when another node is
/// hovered and it is not that node's neighbour.
pub proof fn lemma_focus_dims_distant_nodes(f: NodeFlags, community: Seq<char>)
    requires
        f.has_focus,
    ensures
        !f.is_connected && !f.is_selected && !f.is_hovered ==> is_dimmed_opacity(node_style_spec(f, community).3),
        f.is_connected ==> !is_dimmed_opacity(node_style_spec(f, community).3),
        f.is_selected && !f.is_unresolved && !f.is_tag ==> node_style_spec(f, community).3 == "1.0"@,
{
    reveal_strlit("0.20");
    reveal_strlit("0.18");
    reveal_strlit("0.85");
    reveal_strlit("0.95");
    reveal_strlit("1.0");
    assert("1.0"@.len() != "0.20"@.len() && "1.0"@.len() != "0.18"@.len());
    assert("0.85"@[2] != "0.20"@[2] && "0.85"@[2] != "0.18"@[2]);
    assert("0.95"@[2] != "0.20"@[2] && "0.95"@[2] != "0.18"@[2]);
}

/// With nothing focused, a note whose label does not match the search is
/// dimmed and one that matches is drawn in full.
pub proof fn lemma_search_dims_non_matching_notes(f: NodeFlags, community: Seq<char>)
    requires
        !f.has_focus,
        !f.is_unresolved,
        !f.is_tag,
    ensures
        is_dimmed_opacity(node_style_spec(f, community).3) <==> !f.matches_query,
{
    reveal_strlit("0.20");
    reveal_strlit("0.18");
    reveal_strlit("1.0");
    assert("1.0"@.len() != "0.20"@.len() && "1.0"@.len() != "0.18"@.len());
}

/// The note open in the editor is drawn violet whenever it is drawn in
/// full colour: with nothing focused, or when it is itself highlighted.
pub proof fn lemma_current_note_is_violet(f: NodeFlags, community: Seq<char>)
    requires
        f.is_current,
        !f.is_unresolved,
        !f.is_tag,
        !f.has_focus || f.is_selected || f.is_hovered,
    ensures
        node_style_spec(f, community).0 == "var(--graph-node-current, #9A4BFF)"@,
{
}

/// Whether a node's label is drawn: for the highlighted node and the
/// focused node's neighbours, in small graphs (35 notes or fewer), and
/// otherwise once zoomed in far enough (less far for nodes with three or
/// more links).
pub open spec fn label_visible_spec(
    f: NodeFlags,
    total_notes: usize,
    degree: usize,
    zoomed_in: bool,
    zoomed_in_for_hubs: bool,
) -> bool {
    f.is_selected || f.is_hovered || (f.has_focus && f.is_connected) || zoomed_in || total_notes <= 35 || (
    degree >= 3 && zoomed_in_for_hubs)
}

/// Decides whether a node's label is drawn; `zoomed_in` and
/// `zoomed_in_for_hubs` say whether the zoom reaches the label threshold
/// and the lower threshold for well-linked nodes.
pub fn label_visible(
    f: NodeFlags,
    total_notes: usize,
    degree: usize,
    zoomed_in: bool,
    zoomed_in_for_hubs: bool,
) -> (visible: bool)
    ensures
        visible == label_visible_spec(f, total_notes, degree, zoomed_in, zoomed_in_for_hubs),
{
    f.is_selected || f.is_hovered || (f.has_focus && f.is_connected) || zoomed_in || total_notes <= 35 || (degree
        >= 3 && zoomed_in_for_hubs)
}

/// A path with every backslash turned into a forward slash, as the graph's
/// node ids write paths.
pub open spec fn forward_slashes(path: Seq<char>) -> Seq<char> {
    path.map_values(|c: char| if c == '\\' { '/' } else { c })
}

/// Writes a path with forward slashes only.
pub fn with_forward_slashes(path: &str) -> (normalized: String)
    ensures
        normalized@ == forward_slashes(path@),
{
    let chars = chars_of(path);
    let mut normalized = String::new();
    let mut i: usize = 0;
    while i < chars.len()
        invariant
            0 <= i <= chars.len(),
            chars@ == path@,
            normalized@ == forward_slashes(path@.take(i as int)),
        decreases chars.len() - i,
    {
        let c = chars[i];
        let ghost before = normalized@;
        if c == '\\' {
            normalized.append("/");
        } else {
            normalized.append(path.substring_char(i, i + 1));
        }
        proof {
            reveal_strlit("/");
            assert(forward_slashes(path@.take(i + 1)) =~= forward_slashes(path@.take(i as int)).push(
                if c == '\\' { '/' } else { c },
            ));
            assert(path@.subrange(i as int, i + 1) =~= seq![c]);
            assert(normalized@ =~= before.push(if c == '\\' { '/' } else { c }));
        }
        i = i + 1;
    }
    proof {
        assert(path@.take(path@.len() as int) =~= path@);
    }
    normalized
}

/// Whether a node stands for the note open in the editor: its id is the
/// note's path written with forward slashes.
pub fn is_current_note(active_path: &Option<String>, node_id: &String) -> (current: bool)
    ensures
        current == (active_path matches Some(p) && forward_slashes(p@) == node_id@),
{
    match active_path {
        Some(p) => {
            let normalized = with_forward_slashes(p.as_str());
            normalized == *node_id
        },
        None => false,
    }
}

/// The flags of node `index`: `hovered` and `selected` are the hovered and
/// selected nodes, `connected` the focused node's neighbourhood (see
/// `graph::connected_indices`), `matches_query` the label's search match.
pub open spec fn node_flags_spec(
    index: usize,
    hovered: Option<usize>,
    selected: Option<usize>,
    connected: Set<usize>,
    is_unresolved: bool,
    is_tag: bool,
    is_current: bool,
    matches_query: bool,
) -> NodeFlags {
    NodeFlags {
        is_unresolved,
        is_tag,
        is_current,
        is_selected: selected == Some(index),
        is_hovered: hovered == Some(index),
        has_focus: hovered is Some || selected is Some,
        is_connected: connected.contains(index),
        matches_query,
    }
}

/// Builds the flags that decide how node `index` is drawn.
pub fn node_flags(
    index: usize,
    hovered: Option<usize>,
    selected: Option<usize>,
    connected: &HashSet<usize>,
    is_unresolved: bool,
    is_tag: bool,
    is_current: bool,
    label: &str,
    search: &str,
) -> (flags: NodeFlags)
    ensures
        flags == node_flags_spec(
            index,
            hovered,
            selected,
            connected@,
            is_unresolved,
            is_tag,
            is_current,
            matches_query(label@, lowercase_of(trim_spec(search@))),
        ),
{
    let matches = label_matches_search(label, search);
    NodeFlags {
        is_unresolved,
        is_tag,
        is_current,
        is_selected: selected == Some(index),
        is_hovered: hovered == Some(index),
        has_focus: hovered.is_some() || selected.is_some(),
        is_connected: connected.contains(&index),
        matches_query: matches,
    }
}

} // verus!
