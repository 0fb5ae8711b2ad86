use nodera_desktop::properties::{
    add_tag, checkbox_event_value, edited_property_value, new_property, parse_i64, parse_list,
    parse_property_value, property_display_text, remove_tag, trim_text, ListItem, PropertyValue,
};

fn texts(value: &PropertyValue) -> Vec<String> {
    match value {
        PropertyValue::List(items) => items
            .iter()
            .map(|i| match i {
                ListItem::Text(t) => t.clone(),
                ListItem::NonText => "<non-text>".to_string(),
            })
            .collect(),
        _ => panic!("not a list"),
    }
}

#[test]
fn trimming_matches_str_trim() {
    for s in ["", "   ", "  a b  ", "\u{3000}x\t\n", "abc", " \u{a0}é\u{2028}"] {
        assert_eq!(trim_text(s), s.trim());
    }
}

#[test]
fn lists_split_on_commas_trim_and_drop_empty_items() {
    assert_eq!(parse_list("a, b ,c"), vec!["a", "b", "c"]);
    assert_eq!(parse_list(""), Vec::<String>::new());
    assert_eq!(parse_list(" , ,"), Vec::<String>::new());
    assert_eq!(parse_list("rust,, verus ,"), vec!["rust", "verus"]);
    assert_eq!(parse_list("one item"), vec!["one item"]);
    let raw = " x ,y,, z z ,";
    let expected: Vec<String> = raw.split(',').map(str::trim).filter(|s| !s.is_empty()).map(String::from).collect();
    assert_eq!(parse_list(raw), expected);
}

#[test]
fn integers_parse_like_the_standard_library() {
    for s in ["0", "42", "-42", "+7", "-0", "", "-", "+", "4x", " 4", "9223372036854775807", "9223372036854775808",
        "-9223372036854775808", "-9223372036854775809", "00012", "99999999999999999999999", "1.5", "１"] {
        assert_eq!(parse_i64(s), s.parse::<i64>().ok(), "{s:?}");
    }
}

#[test]
fn property_kinds_type_the_value() {
    assert!(matches!(parse_property_value("number", "12"), PropertyValue::Number(12)));
    assert!(matches!(parse_property_value("number", "-3"), PropertyValue::Number(-3)));
    match parse_property_value("number", "twelve") {
        PropertyValue::Text(t) => assert_eq!(t, "twelve"),
        other => panic!("{other:?}"),
    }
    assert!(matches!(parse_property_value("checkbox", "TRUE"), PropertyValue::Bool(true)));
    assert!(matches!(parse_property_value("checkbox", "tRuE"), PropertyValue::Bool(true)));
    assert!(matches!(parse_property_value("checkbox", "1"), PropertyValue::Bool(true)));
    assert!(matches!(parse_property_value("checkbox", "yes"), PropertyValue::Bool(false)));
    assert!(matches!(parse_property_value("checkbox", "true!"), PropertyValue::Bool(false)));
    assert_eq!(texts(&parse_property_value("list", "a, b")), vec!["a", "b"]);
    match parse_property_value("text", "hello") {
        PropertyValue::Text(t) => assert_eq!(t, "hello"),
        other => panic!("{other:?}"),
    }
}

#[test]
fn adding_a_property_trims_and_needs_a_key() {
    assert!(new_property("   ", "value", "text").is_none());
    let (key, value) = new_property("  tags ", "  a ,b  ", "list").unwrap();
    assert_eq!(key, "tags");
    assert_eq!(texts(&value), vec!["a", "b"]);
    let (key, value) = new_property("count", " 5 ", "number").unwrap();
    assert_eq!(key, "count");
    assert!(matches!(value, PropertyValue::Number(5)));
}

#[test]
fn property_values_display_as_text() {
    assert_eq!(property_display_text(&PropertyValue::Text("x".to_string())), "x");
    assert_eq!(property_display_text(&PropertyValue::Number(-12)), "-12");
    assert_eq!(property_display_text(&PropertyValue::Bool(true)), "true");
    assert_eq!(property_display_text(&PropertyValue::Bool(false)), "false");
    let list = PropertyValue::List(vec![
        ListItem::Text("a".to_string()),
        ListItem::NonText,
        ListItem::Text("b c".to_string()),
    ]);
    assert_eq!(property_display_text(&list), "a, b c");
    assert_eq!(property_display_text(&PropertyValue::List(vec![])), "");
    assert_eq!(property_display_text(&PropertyValue::List(vec![ListItem::NonText])), "");
    assert_eq!(property_display_text(&PropertyValue::Other("Null".to_string())), "Null");
}

#[test]
fn shown_values_parse_back_to_themselves() {
    for n in [0i64, 7, -7, i64::MAX, i64::MIN] {
        let shown = property_display_text(&PropertyValue::Number(n));
        assert!(matches!(parse_property_value("number", &shown), PropertyValue::Number(m) if m == n));
    }
    for b in [true, false] {
        let shown = property_display_text(&PropertyValue::Bool(b));
        assert!(matches!(parse_property_value("checkbox", &shown), PropertyValue::Bool(c) if c == b));
    }
    let list = PropertyValue::List(vec![ListItem::Text("alpha".to_string()), ListItem::Text("beta gamma".to_string())]);
    let shown = property_display_text(&list);
    assert_eq!(texts(&parse_property_value("list", &shown)), vec!["alpha", "beta gamma"]);
}

#[test]
fn edited_text_becomes_number_checkbox_or_text() {
    assert!(matches!(edited_property_value("42"), PropertyValue::Number(42)));
    assert!(matches!(edited_property_value("-7"), PropertyValue::Number(-7)));
    assert!(matches!(edited_property_value("TRUE"), PropertyValue::Bool(true)));
    assert!(matches!(edited_property_value("False"), PropertyValue::Bool(false)));
    assert!(matches!(edited_property_value(" true"), PropertyValue::Text(t) if t == " true"));
    assert!(matches!(edited_property_value("hello"), PropertyValue::Text(t) if t == "hello"));
}

#[test]
fn checkbox_events_tick_only_on_true() {
    assert!(checkbox_event_value("true"));
    assert!(!checkbox_event_value("false"));
    assert!(!checkbox_event_value("TRUE"));
    assert!(!checkbox_event_value(""));
}

#[test]
fn tags_are_added_trimmed_once_and_removed_by_index() {
    let mut tags: Vec<String> = vec!["work".to_string()];
    assert!(add_tag(&mut tags, "  home "));
    assert_eq!(tags, vec!["work".to_string(), "home".to_string()]);
    assert!(!add_tag(&mut tags, "home"));
    assert!(!add_tag(&mut tags, "   "));
    assert_eq!(tags.len(), 2);
    assert!(remove_tag(&mut tags, 0));
    assert_eq!(tags, vec!["home".to_string()]);
    assert!(!remove_tag(&mut tags, 5));
    assert_eq!(tags, vec!["home".to_string()]);
}

#[test]
fn removing_a_just_added_tag_restores_the_tags() {
    let original: Vec<String> = vec!["a".to_string(), "b".to_string()];
    let mut tags = original.clone();
    assert!(add_tag(&mut tags, " c "));
    assert!(remove_tag(&mut tags, original.len()));
    assert_eq!(tags, original);
}
