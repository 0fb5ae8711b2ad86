use nodera_desktop::search::{
    filter_templates, label_matches_search, task_search_query, text_contains, TemplateInfo,
};

fn template(name: &str, description: &str) -> TemplateInfo {
    TemplateInfo { name: name.to_string(), description: description.to_string() }
}

#[test]
fn text_contains_finds_runs_of_characters() {
    assert!(text_contains("meeting notes", "ting no"));
    assert!(text_contains("abc", "abc"));
    assert!(text_contains("abc", ""));
    assert!(text_contains("", ""));
    assert!(!text_contains("abc", "abcd"));
    assert!(!text_contains("abc", "ac"));
    assert!(text_contains("aaab", "aab"));
    assert!(text_contains("żółw", "ół"));
}

#[test]
fn label_search_ignores_case_and_surrounding_space() {
    assert!(label_matches_search("Hello World", "hello"));
    assert!(label_matches_search("Hello World", "  WORLD  "));
    assert!(!label_matches_search("Hello World", "planet"));
    assert!(label_matches_search("Hello World", ""));
    assert!(label_matches_search("Hello World", "   "));
    assert!(label_matches_search("ÄPFEL", "äpfel"));
}

#[test]
fn template_filter_keeps_matching_templates_in_order() {
    let templates = vec![
        template("Daily Note", "A note for each day"),
        template("Meeting", "Agenda and minutes"),
        template("Project", "Goals, DAILY standups"),
    ];
    assert_eq!(filter_templates(&templates, ""), vec![0, 1, 2]);
    assert_eq!(filter_templates(&templates, "daily"), vec![0, 2]);
    assert_eq!(filter_templates(&templates, "AGENDA"), vec![1]);
    assert_eq!(filter_templates(&templates, "nothing"), Vec::<usize>::new());
    assert_eq!(filter_templates(&Vec::new(), "x"), Vec::<usize>::new());
}

#[test]
fn blank_task_filters_are_dropped() {
    assert_eq!(task_search_query(""), None);
    assert_eq!(task_search_query("  \t "), None);
    assert_eq!(task_search_query(" urgent "), Some(" urgent ".to_string()));
}
