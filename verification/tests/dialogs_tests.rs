use nodera_desktop::date::CalendarDate;
use nodera_desktop::dialogs::{
    capture_key_action, confirm_go_to_date, go_to_date_event, name_dialog_event, CaptureField,
    DialogEvent, GoToDateDialog, NameDialog, NameDialogKind, NameRequest,
};
use nodera_desktop::keys::{Key, Modifiers};

fn dialog(kind: NameDialogKind, target: Option<&str>, text: &str) -> NameDialog {
    NameDialog { kind, open: true, target: target.map(|t| t.to_string()), text: text.to_string() }
}

fn go_to(input: &str) -> GoToDateDialog {
    GoToDateDialog { open: true, input: input.to_string(), error: None }
}

fn date(year: i32, month: u32, day: u32) -> CalendarDate {
    CalendarDate { year, month, day }
}

#[test]
fn typing_replaces_the_dialog_text() {
    let mut d = dialog(NameDialogKind::NewFolder, Some("Projects"), "old");
    let r = name_dialog_event(&mut d, DialogEvent::Typed("Ideas".to_string()));
    assert!(matches!(r, NameRequest::Nothing));
    assert_eq!(d.text, "Ideas");
    assert!(d.open);
    assert_eq!(d.target.as_deref(), Some("Projects"));
}

#[test]
fn new_notes_are_created_even_without_a_title() {
    let mut d = dialog(NameDialogKind::NewNote, None, "   ");
    match name_dialog_event(&mut d, DialogEvent::Confirm) {
        NameRequest::Submit { kind, target, name } => {
            assert_eq!(kind, NameDialogKind::NewNote);
            assert_eq!(target, None);
            assert_eq!(name, "");
        }
        NameRequest::Nothing => panic!("a new note is always created"),
    }
    assert!(!d.open);
    assert_eq!(d.text, "");
}

#[test]
fn folders_need_a_name() {
    let mut d = dialog(NameDialogKind::NewFolder, Some("Area"), "  ");
    assert!(matches!(name_dialog_event(&mut d, DialogEvent::Confirm), NameRequest::Nothing));
    assert!(!d.open);
    assert_eq!(d.target, None);
    let mut d = dialog(NameDialogKind::NewFolder, Some("Area"), " Reading ");
    match name_dialog_event(&mut d, DialogEvent::Confirm) {
        NameRequest::Submit { target, name, .. } => {
            assert_eq!(target.as_deref(), Some("Area"));
            assert_eq!(name, "Reading");
        }
        NameRequest::Nothing => panic!("the folder should be created"),
    }
}

#[test]
fn renames_need_a_target_and_a_name() {
    let mut d = dialog(NameDialogKind::RenameFolder, None, "New");
    assert!(matches!(name_dialog_event(&mut d, DialogEvent::Confirm), NameRequest::Nothing));
    let mut d = dialog(NameDialogKind::RenameNote, Some("a.md"), " Better title ");
    match name_dialog_event(&mut d, DialogEvent::Confirm) {
        NameRequest::Submit { kind, target, name } => {
            assert_eq!(kind, NameDialogKind::RenameNote);
            assert_eq!(target.as_deref(), Some("a.md"));
            assert_eq!(name, " Better title ");
        }
        NameRequest::Nothing => panic!("the note should be renamed"),
    }
    assert!(!d.open);
    assert_eq!(d.text, " Better title ");
}

#[test]
fn cancelling_closes_without_a_request() {
    let mut d = dialog(NameDialogKind::RenameFolder, Some("Old"), "New");
    assert!(matches!(name_dialog_event(&mut d, DialogEvent::Cancel), NameRequest::Nothing));
    assert!(!d.open);
    assert_eq!(d.target, None);
    assert_eq!(d.text, "");
}

#[test]
fn go_to_date_opens_a_parsed_date() {
    let mut d = go_to(" 2026-02-28 ");
    assert_eq!(go_to_date_event(&mut d, DialogEvent::Confirm), Some(date(2026, 2, 28)));
    assert!(!d.open);
    assert_eq!(d.error, None);
    let mut d = go_to("2024-2-29");
    assert_eq!(go_to_date_event(&mut d, DialogEvent::Confirm), Some(date(2024, 2, 29)));
}

#[test]
fn go_to_date_reports_text_that_is_no_date() {
    for text in ["2026-02-30", "hello", "", "2026/01/01"] {
        let mut d = go_to(text);
        assert_eq!(go_to_date_event(&mut d, DialogEvent::Confirm), None, "{text}");
        assert!(d.open);
        assert_eq!(d.error.as_deref(), Some("Invalid date. Please use YYYY-MM-DD format."));
    }
}

#[test]
fn go_to_date_typing_and_cancel_clear_the_error() {
    let mut d = go_to("x");
    d.error = Some("Invalid date. Please use YYYY-MM-DD format.".to_string());
    assert_eq!(go_to_date_event(&mut d, DialogEvent::Typed("2026-01-0".to_string())), None);
    assert_eq!(d.input, "2026-01-0");
    assert_eq!(d.error, None);
    assert!(d.open);
    d.error = Some("e".to_string());
    assert_eq!(go_to_date_event(&mut d, DialogEvent::Cancel), None);
    assert!(!d.open);
    assert_eq!(d.error, None);
}

#[test]
fn confirming_with_a_read_date_closes_the_dialog() {
    let mut d = go_to("anything");
    assert_eq!(confirm_go_to_date(&mut d, Some(date(2025, 12, 31))), Some(date(2025, 12, 31)));
    assert!(!d.open);
    let mut d = go_to("anything");
    assert_eq!(confirm_go_to_date(&mut d, None), None);
    assert!(d.open);
    assert!(d.error.is_some());
}

#[test]
fn quick_capture_saves_on_the_right_enter() {
    let plain = Modifiers { ctrl: false, meta: false, shift: false };
    let shift = Modifiers { shift: true, ..plain };
    let ctrl = Modifiers { ctrl: true, ..plain };
    let meta = Modifiers { meta: true, ..plain };
    assert!(capture_key_action(CaptureField::Title, &Key::Enter, &plain));
    assert!(!capture_key_action(CaptureField::Title, &Key::Enter, &shift));
    assert!(!capture_key_action(CaptureField::Body, &Key::Enter, &plain));
    assert!(capture_key_action(CaptureField::Body, &Key::Enter, &ctrl));
    assert!(capture_key_action(CaptureField::Body, &Key::Enter, &meta));
    assert!(!capture_key_action(CaptureField::Title, &Key::Character("a".to_string()), &plain));
}
