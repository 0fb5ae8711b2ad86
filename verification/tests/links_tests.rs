use nodera_desktop::links::{
    equal_ignoring_ascii_case, link_target_name, link_target_path, notes_titled_like,
};

#[test]
fn link_targets_drop_the_heading_and_space() {
    assert_eq!(link_target_name("Project Plan#Goals"), "Project Plan");
    assert_eq!(link_target_name("  Inbox  "), "Inbox");
    assert_eq!(link_target_name("#Only heading"), "");
    assert_eq!(link_target_name("a#b#c"), "a");
    assert_eq!(link_target_path(" Daily/2026-01-05 #Top"), "Daily/2026-01-05.md");
    assert_eq!(link_target_path(""), ".md");
}

#[test]
fn titles_compare_ignoring_ascii_case() {
    for (a, b) in [("Inbox", "inbox"), ("ÄB", "äb"), ("a-b", "A-B"), ("ab", "abc"), ("", ""), ("[", "{")] {
        assert_eq!(equal_ignoring_ascii_case(a, b), a.eq_ignore_ascii_case(b), "{a} {b}");
    }
}

#[test]
fn notes_are_found_by_title_in_order() {
    let titles: Vec<String> = ["Plan", "plan", "Other", "PLAN "].iter().map(|t| t.to_string()).collect();
    assert_eq!(notes_titled_like(&titles, "PLAN#x"), vec![0, 1]);
    assert_eq!(notes_titled_like(&titles, "missing"), Vec::<usize>::new());
}
