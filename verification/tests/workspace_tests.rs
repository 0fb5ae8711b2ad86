use nodera_desktop::editor::{editor_stats, is_whitespace};
use nodera_desktop::file_tree::{
    flatten_visible_items, sidebar_pane, FileTreeNode, SidebarPane, VisibleTreeItem,
};
use nodera_desktop::graph::{
    build_sim_edges, community_color, connected_indices, find_node_index, sorted_order, texts_in_order,
    GraphLink, SimEdge,
};
use nodera_desktop::text::{push_decimal_i64, push_decimal_u64};

fn folder(name: &str, path: &str, children: Vec<FileTreeNode<&'static str>>) -> FileTreeNode<&'static str> {
    FileTreeNode::Folder { name: name.to_string(), relative_path: path.to_string(), children }
}

fn sample_tree() -> Vec<FileTreeNode<&'static str>> {
    vec![
        folder(
            "projects",
            "projects",
            vec![
                folder("alpha", "projects/alpha", vec![FileTreeNode::File("alpha plan")]),
                FileTreeNode::File("roadmap"),
            ],
        ),
        folder("archive", "archive", vec![]),
        FileTreeNode::File("inbox"),
    ]
}

fn describe(items: &[VisibleTreeItem<'_, &'static str>]) -> Vec<String> {
    items
        .iter()
        .map(|item| match item {
            VisibleTreeItem::Folder { name, relative_path, depth, is_expanded, is_empty } => {
                format!("F {name} {relative_path} {depth} {is_expanded} {is_empty}")
            }
            VisibleTreeItem::File { summary, depth } => format!("N {summary} {depth}"),
        })
        .collect()
}

#[test]
fn collapsed_tree_shows_top_level_only() {
    let tree = sample_tree();
    let mut out = Vec::new();
    flatten_visible_items(&tree, 0, &vec![], &mut out);
    assert_eq!(
        describe(&out),
        vec!["F projects projects 0 false false", "F archive archive 0 false true", "N inbox 0"]
    );
}

#[test]
fn expanded_folders_show_their_children_one_level_deeper() {
    let tree = sample_tree();
    let expanded = vec!["projects".to_string(), "projects/alpha".to_string(), "archive".to_string()];
    let mut out = Vec::new();
    flatten_visible_items(&tree, 0, &expanded, &mut out);
    assert_eq!(
        describe(&out),
        vec![
            "F projects projects 0 true false",
            "F alpha projects/alpha 1 true false",
            "N alpha plan 2",
            "N roadmap 1",
            "F archive archive 0 true true",
            "N inbox 0",
        ]
    );
}

#[test]
fn a_collapsed_parent_hides_expanded_children() {
    let tree = sample_tree();
    let expanded = vec!["projects/alpha".to_string()];
    let mut out = Vec::new();
    flatten_visible_items(&tree, 3, &expanded, &mut out);
    assert_eq!(
        describe(&out),
        vec!["F projects projects 3 false false", "F archive archive 3 false true", "N inbox 3"]
    );
}

fn link(s: &str, t: &str) -> GraphLink {
    GraphLink { source: s.to_string(), target: t.to_string() }
}

#[test]
fn simulation_edges_skip_loops_unknown_ends_and_repeats() {
    let ids: Vec<String> = ["a", "b", "c"].iter().map(|s| s.to_string()).collect();
    let links = vec![
        link("a", "b"),
        link("b", "a"),
        link("a", "a"),
        link("a", "zzz"),
        link("c", "b"),
        link("a", "b"),
        link("c", "a"),
    ];
    let edges = build_sim_edges(&ids, &links);
    assert_eq!(
        edges,
        vec![
            SimEdge { source: 0, target: 1 },
            SimEdge { source: 2, target: 1 },
            SimEdge { source: 2, target: 0 },
        ]
    );
    assert!(build_sim_edges(&ids, &vec![]).is_empty());
}

#[test]
fn repeated_ids_resolve_to_their_last_node() {
    let ids: Vec<String> = ["a", "b", "a"].iter().map(|s| s.to_string()).collect();
    assert_eq!(find_node_index(&ids, &"a".to_string()), Some(2));
    assert_eq!(find_node_index(&ids, &"b".to_string()), Some(1));
    assert_eq!(find_node_index(&ids, &"q".to_string()), None);
    assert_eq!(build_sim_edges(&ids, &vec![link("b", "a")]), vec![SimEdge { source: 1, target: 2 }]);
}

#[test]
fn neighbourhood_of_the_focused_node() {
    let edges = vec![
        SimEdge { source: 0, target: 1 },
        SimEdge { source: 2, target: 0 },
        SimEdge { source: 3, target: 4 },
        SimEdge { source: 1, target: 3 },
    ];
    let mut n: Vec<usize> = connected_indices(&edges, Some(0)).into_iter().collect();
    n.sort();
    assert_eq!(n, vec![0, 1, 2]);
    let mut n: Vec<usize> = connected_indices(&edges, Some(3)).into_iter().collect();
    n.sort();
    assert_eq!(n, vec![1, 3, 4]);
    assert!(connected_indices(&edges, None).is_empty());
    let mut n: Vec<usize> = connected_indices(&edges, Some(9)).into_iter().collect();
    n.sort();
    assert_eq!(n, vec![9]);
}

#[test]
fn community_colours_cycle() {
    assert_eq!(community_color(0), "#5C6FE6");
    assert_eq!(community_color(11), "#4A5CC5");
    assert_eq!(community_color(12), "#5C6FE6");
    assert_eq!(community_color(17), "#6B7DF2");
}

#[test]
fn editor_counts_words_and_characters() {
    assert_eq!(editor_stats(""), (0, 0));
    assert_eq!(editor_stats("hello  world\n"), (2, 13));
    assert_eq!(editor_stats("   "), (0, 3));
    assert_eq!(editor_stats("a\u{3000}b\u{a0}c"), (3, 5));
    assert_eq!(editor_stats("naïve café"), (2, 10));
    let text = "# Title\n\n- [ ] task one\n- [x] done";
    assert_eq!(editor_stats(text), (text.split_whitespace().count(), text.chars().count()));
}

#[test]
fn whitespace_matches_the_standard_library() {
    for c in ['\t', '\n', '\u{b}', '\u{c}', '\r', ' ', '\u{85}', '\u{a0}', '\u{1680}', '\u{2000}', '\u{200a}', '\u{2028}', '\u{2029}', '\u{202f}', '\u{205f}', '\u{3000}', 'a', '\u{200b}', '\u{feff}', '_'] {
        assert_eq!(is_whitespace(c), c.is_whitespace(), "{:?}", c);
    }
    for code in 0u32..0x3100 {
        if let Some(c) = char::from_u32(code) {
            assert_eq!(is_whitespace(c), c.is_whitespace(), "{:?}", c);
        }
    }
}

#[test]
fn decimal_text_matches_display() {
    for n in [0u64, 7, 10, 99, 100, 2026, u64::MAX] {
        let mut s = String::from("x");
        push_decimal_u64(&mut s, n);
        assert_eq!(s, format!("x{}", n));
    }
    for n in [0i64, -1, -262143, 2026, i64::MIN, i64::MAX] {
        let mut s = String::new();
        push_decimal_i64(&mut s, n);
        assert_eq!(s, n.to_string());
    }
}

#[test]
fn texts_compare_like_string_order() {
    let samples = ["", "a", "ab", "b", "B", "Zeta", "alpha", "älpha", "a b", "a\u{10000}", "a\u{ffff}"];
    for x in samples {
        for y in samples {
            assert_eq!(texts_in_order(x, y), x <= y, "{x:?} {y:?}");
        }
    }
}

#[test]
fn node_order_is_a_stable_sort_by_id() {
    let ids: Vec<String> = ["m", "b", "z", "b", "a", "m"].iter().map(|s| s.to_string()).collect();
    assert_eq!(sorted_order(&ids), vec![4, 1, 3, 0, 5, 2]);
    let mut expected: Vec<usize> = (0..ids.len()).collect();
    expected.sort_by(|&x, &y| ids[x].cmp(&ids[y]));
    assert_eq!(sorted_order(&ids), expected);
    assert!(sorted_order(&Vec::new()).is_empty());
}

#[test]
fn sidebar_pane_follows_vault_search_and_entries() {
    assert_eq!(sidebar_pane(false, "x", true), SidebarPane::NoVault);
    assert_eq!(sidebar_pane(true, "x", false), SidebarPane::SearchResults);
    assert_eq!(sidebar_pane(true, " ", true), SidebarPane::SearchResults);
    assert_eq!(sidebar_pane(true, "", false), SidebarPane::EmptyVault);
    assert_eq!(sidebar_pane(true, "", true), SidebarPane::Tree);
}
