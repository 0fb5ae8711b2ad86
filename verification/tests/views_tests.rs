use nodera_desktop::citations::{citation_card, join_texts, CitationEntry};
use nodera_desktop::graph_colors::{
    apply_color_input, choose_palette, is_complete_hex_input, palette_from_value, palette_value,
    set_custom_color, ColorRole, GraphColorChoice, PalettePreset,
};
use nodera_desktop::labels::{
    document_count_label, editor_property_count, inspector_property_count, outline_indent,
    shared_tag_label, task_counts,
};
use nodera_desktop::settings::{numeric_setting, parse_u32};
use nodera_desktop::symbols::{
    kind_badge, kind_counts, selected_symbol, symbol_relations, EdgeKind, KindCounts, SymbolEdge,
    SymbolKind,
};

fn colors() -> GraphColorChoice {
    GraphColorChoice {
        palette: PalettePreset::Dracula,
        center_node_color: Some("#111111".to_string()),
        sub_node_color: None,
        selected_node_color: Some("#222222".to_string()),
        edge_color: None,
        text_color: Some("#333".to_string()),
    }
}

fn edge(source: &str, target: &str, kind: EdgeKind) -> SymbolEdge {
    SymbolEdge { source: source.to_string(), target: target.to_string(), kind }
}

#[test]
fn library_count_label_is_singular_only_for_one() {
    assert_eq!(document_count_label(0), "0 documents available");
    assert_eq!(document_count_label(1), "1 document available");
    assert_eq!(document_count_label(12), "12 documents available");
}

#[test]
fn shared_tag_chip_is_plural_above_one() {
    assert_eq!(shared_tag_label(0), "0 tag");
    assert_eq!(shared_tag_label(1), "1 tag");
    assert_eq!(shared_tag_label(3), "3 tags");
}

#[test]
fn task_badge_counts_completed_and_active() {
    assert_eq!(task_counts(&vec![]), (0, 0));
    assert_eq!(task_counts(&vec![true, false, true, false, false]), (2, 3));
    assert_eq!(task_counts(&vec![true, true]), (2, 0));
}

#[test]
fn palette_values_round_trip() {
    let all = [
        PalettePreset::NoderaTech,
        PalettePreset::Cyberpunk,
        PalettePreset::Emerald,
        PalettePreset::SolarAmber,
        PalettePreset::Dracula,
        PalettePreset::Monochrome,
        PalettePreset::Custom,
    ];
    for p in all {
        assert_eq!(palette_from_value(palette_value(p)), p);
    }
    assert_eq!(palette_value(PalettePreset::SolarAmber), "solar_amber");
    assert_eq!(palette_from_value("unknown"), PalettePreset::NoderaTech);
    assert_eq!(palette_from_value("Cyberpunk"), PalettePreset::NoderaTech);
}

#[test]
fn choosing_a_palette_clears_custom_colors() {
    let mut c = colors();
    choose_palette(&mut c, "emerald");
    assert_eq!(c.palette, PalettePreset::Emerald);
    assert!(c.center_node_color.is_none());
    assert!(c.selected_node_color.is_none());
    assert!(c.text_color.is_none());
}

#[test]
fn custom_colors_switch_to_the_custom_palette() {
    let mut c = colors();
    set_custom_color(&mut c, ColorRole::Edge, "#abcdef".to_string());
    assert_eq!(c.palette, PalettePreset::Custom);
    assert_eq!(c.edge_color.as_deref(), Some("#abcdef"));
    assert_eq!(c.center_node_color.as_deref(), Some("#111111"));
    assert_eq!(c.text_color.as_deref(), Some("#333"));
}

#[test]
fn color_inputs_apply_only_complete_hex_colors() {
    assert!(is_complete_hex_input("#a1b2c3"));
    assert!(is_complete_hex_input("#abc"));
    assert!(is_complete_hex_input("abcd"));
    assert!(!is_complete_hex_input("#ab"));
    assert!(!is_complete_hex_input("a1b2c3d"));
    assert!(!is_complete_hex_input(""));
    let mut c = colors();
    assert!(!apply_color_input(&mut c, ColorRole::SubNode, "#12"));
    assert_eq!(c.palette, PalettePreset::Dracula);
    assert!(c.sub_node_color.is_none());
    assert!(apply_color_input(&mut c, ColorRole::SubNode, "#123456"));
    assert_eq!(c.palette, PalettePreset::Custom);
    assert_eq!(c.sub_node_color.as_deref(), Some("#123456"));
}

#[test]
fn symbol_relations_list_calls_and_implementations() {
    let edges = vec![
        edge("a", "b", EdgeKind::Calls),
        edge("c", "a", EdgeKind::Calls),
        edge("a", "t", EdgeKind::Implements),
        edge("i", "a", EdgeKind::Implements),
        edge("a", "d", EdgeKind::Other),
        edge("a", "e", EdgeKind::Calls),
        edge("x", "y", EdgeKind::Calls),
    ];
    let r = symbol_relations(&edges, &"a".to_string());
    assert_eq!(r.outgoing_calls, vec!["b".to_string(), "e".to_string()]);
    assert_eq!(r.incoming_calls, vec!["c".to_string()]);
    assert_eq!(r.implements, vec!["t".to_string(), "i".to_string()]);
    let none = symbol_relations(&edges, &"z".to_string());
    assert!(none.outgoing_calls.is_empty() && none.incoming_calls.is_empty() && none.implements.is_empty());
}

#[test]
fn u32_inputs_parse_like_the_standard_library() {
    for text in ["0", "42", "+7", "007", "4294967295", "4294967296", "-1", "-0", "+", "", "12a", " 3"] {
        assert_eq!(parse_u32(text), text.parse::<u32>().ok(), "{text}");
    }
    assert_eq!(numeric_setting(14, "18"), 18);
    assert_eq!(numeric_setting(14, "big"), 14);
}

#[test]
fn property_counts_differ_in_how_tags_count() {
    assert_eq!(editor_property_count(true, 3, 2), 4);
    assert_eq!(inspector_property_count(true, 3, 2), 6);
    assert_eq!(editor_property_count(false, 0, 0), 0);
    assert_eq!(inspector_property_count(false, 0, 5), 5);
}

#[test]
fn outline_indents_twelve_pixels_per_level() {
    assert_eq!(outline_indent(0), 0);
    assert_eq!(outline_indent(1), 0);
    assert_eq!(outline_indent(2), 12);
    assert_eq!(outline_indent(6), 60);
}

fn entry(title: Option<&str>, authors: &[&str], year: Option<&str>) -> CitationEntry {
    CitationEntry {
        citation_key: "knuth1984".to_string(),
        title: title.map(|t| t.to_string()),
        authors: authors.iter().map(|a| a.to_string()).collect(),
        year: year.map(|y| y.to_string()),
    }
}

#[test]
fn citation_cards_fill_in_missing_fields() {
    let full = citation_card(&entry(Some("Literate Programming"), &["Knuth, D."], Some("1984")));
    assert_eq!(full.title, "Literate Programming");
    assert_eq!(full.authors, "Knuth, D.");
    assert_eq!(full.year, "1984");
    let bare = citation_card(&entry(None, &[], None));
    assert_eq!(bare.title, "knuth1984");
    assert_eq!(bare.authors, "Unknown Author");
    assert_eq!(bare.year, "n.d.");
    let many = citation_card(&entry(None, &["A", "B", "C"], None));
    assert_eq!(many.authors, "A, B, C");
}

#[test]
fn joined_texts_match_join() {
    for parts in [vec![], vec!["x"], vec!["x", ""], vec!["a", "b", "c"]] {
        let owned: Vec<String> = parts.iter().map(|p| p.to_string()).collect();
        assert_eq!(join_texts(&owned), parts.join(", "));
    }
}

#[test]
fn symbol_badges_name_the_kind() {
    assert_eq!(kind_badge(SymbolKind::Function), ("FN", "rgba(59, 130, 246, 0.15)", "#60a5fa"));
    assert_eq!(kind_badge(SymbolKind::TypeAlias).0, "TYPE");
    assert_eq!(kind_badge(SymbolKind::Other).0, "OTHER");
}

#[test]
fn project_overview_counts_symbols_by_kind() {
    let kinds = vec![
        SymbolKind::Function,
        SymbolKind::Method,
        SymbolKind::Struct,
        SymbolKind::Enum,
        SymbolKind::EnumVariant,
        SymbolKind::EnumVariant,
        SymbolKind::Trait,
        SymbolKind::Module,
        SymbolKind::Field,
        SymbolKind::Macro,
    ];
    assert_eq!(
        kind_counts(&kinds),
        KindCounts { functions: 2, structs: 1, enums: 3, traits: 1, modules: 1 }
    );
    assert_eq!(kind_counts(&vec![]), KindCounts { functions: 0, structs: 0, enums: 0, traits: 0, modules: 0 });
}

#[test]
fn the_selected_symbol_is_the_first_with_its_id() {
    let ids: Vec<String> = ["a", "b", "a"].iter().map(|s| s.to_string()).collect();
    assert_eq!(selected_symbol(&ids, &Some("a".to_string())), Some(0));
    assert_eq!(selected_symbol(&ids, &Some("b".to_string())), Some(1));
    assert_eq!(selected_symbol(&ids, &Some("z".to_string())), None);
    assert_eq!(selected_symbol(&ids, &None), None);
}
