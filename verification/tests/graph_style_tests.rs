use std::collections::HashSet;

use nodera_desktop::graph_style::{
    is_current_note, label_visible, node_flags, node_style, with_forward_slashes, NodeFlags,
    NodeStyle,
};

const COMMUNITY: &str = "#5C6FE6";

fn note() -> NodeFlags {
    NodeFlags {
        is_unresolved: false,
        is_tag: false,
        is_current: false,
        is_selected: false,
        is_hovered: false,
        has_focus: false,
        is_connected: false,
        matches_query: true,
    }
}

#[test]
fn plain_notes_take_their_community_colour() {
    assert_eq!(
        node_style(note(), COMMUNITY),
        NodeStyle { fill: COMMUNITY, stroke: "var(--border, #28313C)", stroke_width: "1.5", opacity: "1.0", dash: "" }
    );
}

#[test]
fn the_current_note_is_violet() {
    let f = NodeFlags { is_current: true, ..note() };
    let s = node_style(f, COMMUNITY);
    assert_eq!(s.fill, "var(--graph-node-current, #9A4BFF)");
    assert_eq!(s.stroke, "#D5C7FF");
}

#[test]
fn search_dims_notes_that_do_not_match() {
    let f = NodeFlags { matches_query: false, ..note() };
    assert_eq!(node_style(f, COMMUNITY).opacity, "0.20");
    let tag = NodeFlags { is_tag: true, matches_query: false, ..note() };
    assert_eq!(node_style(tag, COMMUNITY).opacity, "0.95");
}

#[test]
fn focus_highlights_neighbours_and_dims_the_rest() {
    let hovered = NodeFlags { has_focus: true, is_hovered: true, is_connected: true, ..note() };
    assert_eq!(
        node_style(hovered, COMMUNITY),
        NodeStyle {
            fill: "var(--graph-node-hover, #7182FF)",
            stroke: "#FFFFFF",
            stroke_width: "2.5",
            opacity: "1.0",
            dash: ""
        }
    );
    let neighbour = NodeFlags { has_focus: true, is_connected: true, ..note() };
    assert_eq!(node_style(neighbour, COMMUNITY).stroke, "var(--border-strong, #383F4F)");
    assert_eq!(node_style(neighbour, COMMUNITY).opacity, "1.0");
    let distant = NodeFlags { has_focus: true, ..note() };
    assert_eq!(node_style(distant, COMMUNITY).opacity, "0.18");
    let distant_tag = NodeFlags { has_focus: true, is_tag: true, ..note() };
    assert_eq!(node_style(distant_tag, COMMUNITY).opacity, "0.20");
}

#[test]
fn missing_notes_are_drawn_dashed() {
    let f = NodeFlags { is_unresolved: true, ..note() };
    assert_eq!(
        node_style(f, COMMUNITY),
        NodeStyle {
            fill: "transparent",
            stroke: "var(--text-muted, #8E90A0)",
            stroke_width: "1.5",
            opacity: "0.85",
            dash: "3 2"
        }
    );
}

#[test]
fn labels_show_when_close_or_small() {
    assert!(label_visible(note(), 35, 0, false, false));
    assert!(!label_visible(note(), 36, 0, false, false));
    assert!(label_visible(note(), 100, 0, true, false));
    assert!(label_visible(note(), 100, 3, false, true));
    assert!(!label_visible(note(), 100, 2, false, true));
    let neighbour = NodeFlags { has_focus: true, is_connected: true, ..note() };
    assert!(label_visible(neighbour, 100, 0, false, false));
}

#[test]
fn paths_compare_with_forward_slashes() {
    assert_eq!(with_forward_slashes("Daily\\2026\\note.md"), "Daily/2026/note.md");
    assert_eq!(with_forward_slashes("a/b"), "a/b");
    assert_eq!(with_forward_slashes(""), "");
    assert!(is_current_note(&Some("Daily\\x.md".to_string()), &"Daily/x.md".to_string()));
    assert!(!is_current_note(&Some("Daily/x.md".to_string()), &"Daily/y.md".to_string()));
    assert!(!is_current_note(&None, &"Daily/x.md".to_string()));
}

#[test]
fn node_flags_come_from_focus_neighbourhood_and_search() {
    let connected: HashSet<usize> = [2, 5].into_iter().collect();
    let f = node_flags(5, Some(2), Some(7), &connected, false, false, false, "Project Plan", "  plan ");
    assert!(f.has_focus && f.is_connected && f.matches_query);
    assert!(!f.is_hovered && !f.is_selected);
    let g = node_flags(7, Some(2), Some(7), &connected, false, true, true, "Other", "plan");
    assert!(g.is_selected && !g.is_connected && !g.matches_query && g.is_tag && g.is_current);
    let idle = node_flags(0, None, None, &HashSet::new(), true, false, false, "x", "");
    assert!(!idle.has_focus && idle.matches_query && idle.is_unresolved);
    let selected_note = node_flags(7, Some(2), Some(7), &connected, false, false, false, "Other", "");
    assert_eq!(node_style(selected_note, "#5C6FE6").opacity, "1.0");
}
