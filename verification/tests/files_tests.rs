use nodera_desktop::files::{
    editor_launch_plan, goto_argument, open_action, pdf_entry_step, system_opener, HostOs, OpenAction,
    PdfEntryStep,
};

#[test]
fn pdf_finder_skips_hidden_and_build_folders() {
    assert_eq!(pdf_entry_step(".git", true, None), PdfEntryStep::Skip);
    assert_eq!(pdf_entry_step(".hidden.pdf", false, Some("pdf")), PdfEntryStep::Skip);
    assert_eq!(pdf_entry_step("target", true, None), PdfEntryStep::Skip);
    assert_eq!(pdf_entry_step("node_modules", true, None), PdfEntryStep::Skip);
    assert_eq!(pdf_entry_step("targets", true, None), PdfEntryStep::Descend);
    assert_eq!(pdf_entry_step("papers", true, None), PdfEntryStep::Descend);
    assert_eq!(pdf_entry_step("", true, None), PdfEntryStep::Descend);
}

#[test]
fn pdf_finder_collects_pdf_files_only() {
    assert_eq!(pdf_entry_step("paper.pdf", false, Some("pdf")), PdfEntryStep::Collect);
    assert_eq!(pdf_entry_step("paper.PDF", false, Some("PDF")), PdfEntryStep::Ignore);
    assert_eq!(pdf_entry_step("notes.md", false, Some("md")), PdfEntryStep::Ignore);
    assert_eq!(pdf_entry_step("README", false, None), PdfEntryStep::Ignore);
    assert_eq!(pdf_entry_step("x.pdf", true, Some("pdf")), PdfEntryStep::Descend);
}

#[test]
fn editor_launch_tries_vscode_then_the_user_editor() {
    assert_eq!(goto_argument("src/main.rs", 42), "src/main.rs:42");
    assert_eq!(goto_argument("a b.rs", 0), "a b.rs:0");
    let plan = editor_launch_plan("src/lib.rs", 7, Some("vim".to_string()));
    assert_eq!(plan.len(), 2);
    assert_eq!(plan[0].program, "code");
    assert_eq!(plan[0].args, vec!["-g".to_string(), "src/lib.rs:7".to_string()]);
    assert_eq!(plan[1].program, "vim");
    assert_eq!(plan[1].args, vec!["src/lib.rs".to_string()]);
    let plan = editor_launch_plan("x.rs", 1, None);
    assert_eq!(plan.len(), 1);
    assert_eq!(plan[0].args[1], "x.rs:1");
}

#[test]
fn opening_stops_at_the_first_program_that_starts() {
    assert_eq!(open_action(2, 0, false), OpenAction::TryEditor(0));
    assert_eq!(open_action(2, 1, true), OpenAction::Stop);
    assert_eq!(open_action(2, 1, false), OpenAction::TryEditor(1));
    assert_eq!(open_action(2, 2, true), OpenAction::Stop);
    assert_eq!(open_action(2, 2, false), OpenAction::TrySystemOpener);
    assert_eq!(open_action(2, 3, false), OpenAction::Stop);
    assert_eq!(open_action(2, 3, true), OpenAction::Stop);
    assert_eq!(open_action(0, 0, false), OpenAction::TrySystemOpener);
}

#[test]
fn system_openers_per_os() {
    let w = system_opener(HostOs::Windows, "a b.md").unwrap();
    assert_eq!(w.program, "cmd");
    assert_eq!(w.args, vec!["/C", "start", "", "a b.md"]);
    let m = system_opener(HostOs::MacOs, "x.md").unwrap();
    assert_eq!((m.program.as_str(), m.args.clone()), ("open", vec!["x.md".to_string()]));
    let l = system_opener(HostOs::Linux, "x.md").unwrap();
    assert_eq!((l.program.as_str(), l.args.clone()), ("xdg-open", vec!["x.md".to_string()]));
    assert!(system_opener(HostOs::Other, "x.md").is_none());
}
