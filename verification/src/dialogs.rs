//! The workspace's small input dialogs: naming a new note or folder,
//! renaming one, jumping to a date, and the keys of the quick-capture
//! form. Each takes the events of its fields and buttons and says which
//! workspace operation to run.
use vstd::prelude::*;
use chrono::Datelike;
use crate::date::CalendarDate;
use crate::keys::{Key, Modifiers};
use crate::properties::{trim_spec, trim_text};

verus! {

/// What happens in a dialog: its text is edited, or it is confirmed (the
/// confirm button, or Enter in a field that takes it), or cancelled (the
/// cancel button, or Escape).
#[derive(Debug, Clone)]
pub enum DialogEvent {
    Typed(String),
    Confirm,
    Cancel,
}

/// The dialogs that ask for a name.
#[derive(Debug, Clone, Copy, PartialEq, Eq, Structural)]
pub enum NameDialogKind {
    /// Create a note in the target folder (the vault root when there is none).
    NewNote,
    /// Create a folder in the target folder (the vault root when there is none).
    NewFolder,
    /// Rename the target note.
    RenameNote,
    /// Rename the target folder.
    RenameFolder,
}

/// A name dialog: whether it is shown, the path it acts on, and the text
/// typed so far.
#[derive(Debug, Clone)]
pub struct NameDialog {
    pub kind: NameDialogKind,
    pub open: bool,
    pub target: Option<String>,
    pub text: String,
}

/// The operation a confirmed name dialog asks for: its kind's operation
/// on `target` with `name`.
#[derive(Debug, Clone)]
pub enum NameRequest {
    Nothing,
    Submit { kind: NameDialogKind, target: Option<String>, name: String },
}

/// The text of an optional path.
pub open spec fn path_view(p: Option<String>) -> Option<Seq<char>> {
    match p {
        Some(s) => Some(s@),
        None => None,
    }
}

/// The name a confirmed dialog hands on: the trimmed text, except that a
/// note is renamed to the text as typed.
pub open spec fn submitted_name(kind: NameDialogKind, text: Seq<char>) -> Seq<char> {
    if kind is RenameNote {
        text
    } else {
        trim_spec(text)
    }
}

/// Confirming submits for a new note always, for the others only with a
/// name that is not blank, and for renaming only when there is a target.
pub open spec fn confirm_submits(kind: NameDialogKind, target: Option<String>, text: Seq<char>) -> bool {
    match kind {
        NameDialogKind::NewNote => true,
        NameDialogKind::NewFolder => trim_spec(text).len() > 0,
        _ => trim_spec(text).len() > 0 && target is Some,
    }
}

/// The text left in the field when the dialog closes: cleared, except in
/// the note-renaming dialog.
pub open spec fn text_after_close(kind: NameDialogKind, text: Seq<char>) -> Seq<char> {
    if kind is RenameNote {
        text
    } else {
        Seq::empty()
    }
}

/// Handles an event of a name dialog and says which operation to run.
/// Confirming or cancelling closes the dialog and forgets its target.
pub fn name_dialog_event(dialog: &mut NameDialog, event: DialogEvent) -> (request: NameRequest)
    ensures
        final(dialog).kind == old(dialog).kind,
        event matches DialogEvent::Typed(t) ==> {
            &&& final(dialog).text@ == t@
            &&& final(dialog).open == old(dialog).open
            &&& path_view(final(dialog).target) == path_view(old(dialog).target)
            &&& request is Nothing
        },
        !(event is Typed) ==> {
            &&& !final(dialog).open
            &&& final(dialog).target is None
            &&& final(dialog).text@ == text_after_close(old(dialog).kind, old(dialog).text@)
        },
        event is Cancel ==> request is Nothing,
        event is Confirm ==> if confirm_submits(old(dialog).kind, old(dialog).target, old(dialog).text@) {
            request matches NameRequest::Submit { kind, target, name } && kind == old(dialog).kind
                && path_view(target) == path_view(old(dialog).target) && name@ == submitted_name(
                old(dialog).kind,
                old(dialog).text@,
            )
        } else {
            request is Nothing
        },
{
    match event {
        DialogEvent::Typed(t) => {
            dialog.text = t;
            NameRequest::Nothing
        },
        DialogEvent::Confirm => {
            let trimmed = trim_text(dialog.text.as_str());
            let blank = trimmed.as_str().unicode_len() == 0;
            let submits = match dialog.kind {
                NameDialogKind::NewNote => true,
                NameDialogKind::NewFolder => !blank,
                _ => !blank && dialog.target.is_some(),
            };
            let name = if dialog.kind == NameDialogKind::RenameNote {
                dialog.text.clone()
            } else {
                trimmed
            };
            let target = dialog.target.take();
            let request = if submits {
                NameRequest::Submit { kind: dialog.kind, target, name }
            } else {
                NameRequest::Nothing
            };
            dialog.open = false;
            if dialog.kind != NameDialogKind::RenameNote {
                dialog.text = String::new();
            }
            request
        },
        DialogEvent::Cancel => {
            dialog.open = false;
            dialog.target = None;
            if dialog.kind != NameDialogKind::RenameNote {
                dialog.text = String::new();
            }
            NameRequest::Nothing
        },
    }
}

/// What confirming a name dialog asks for, whatever its kind: a new note
/// is always created (with the trimmed text, possibly empty); a folder is
/// created, and a note or folder renamed (the target one), exactly when
/// the trimmed text is not blank, with the trimmed text as the name, except
/// that a note is renamed to the text as typed.
pub proof fn lemma_confirm_requests(kind: NameDialogKind, target: Option<String>, text: Seq<char>)
    ensures
        kind is NewNote ==> confirm_submits(kind, target, text) && submitted_name(kind, text) == trim_spec(text),
        kind is NewFolder ==> (confirm_submits(kind, target, text) <==> trim_spec(text).len() > 0)
            && submitted_name(kind, text) == trim_spec(text),
        kind is RenameFolder ==> (confirm_submits(kind, target, text) <==> trim_spec(text).len() > 0
            && target is Some) && submitted_name(kind, text) == trim_spec(text),
        kind is RenameNote ==> (confirm_submits(kind, target, text) <==> trim_spec(text).len() > 0
            && target is Some) && submitted_name(kind, text) == text,
{
}

/// What `NaiveDate::parse_from_str(text, "%Y-%m-%d")` gives for a text:
/// the year, month and day of the date it reads, if it reads one.
pub uninterp spec fn iso_date_parse(text: Seq<char>) -> Option<(i32, u32, u32)>;

/// `chrono::NaiveDate::parse_from_str` with the format `%Y-%m-%d`. The
/// contract names the result as a function of the text, and states what
/// every `NaiveDate` is: a date that exists, within chrono's range. How
/// chrono reads the text (signs, padding) is not restated.
#[verifier::external_body]
fn parse_iso_date(text: &str) -> (date: Option<CalendarDate>)
    ensures
        match date {
            Some(d) => iso_date_parse(text@) == Some((d.year, d.month, d.day)) && d.is_valid(),
            None => iso_date_parse(text@) is None,
        },
{
    match chrono::NaiveDate::parse_from_str(text, "%Y-%m-%d") {
        Ok(d) => Some(CalendarDate { year: d.year(), month: d.month(), day: d.day() }),
        Err(_) => None,
    }
}

/// The "go to date" dialog: whether it is shown, the text typed, and the
/// error shown under it.
#[derive(Debug, Clone)]
pub struct GoToDateDialog {
    pub open: bool,
    pub input: String,
    pub error: Option<String>,
}

/// The error shown when the typed text is not a date.
pub open spec fn invalid_date_message() -> Seq<char> {
    "Invalid date. Please use YYYY-MM-DD format."@
}

/// Confirming the dialog once its (trimmed) text has been read as `parsed`:
/// a date closes the dialog and is the one to select and open; no date
/// keeps the dialog open with the error message.
pub fn confirm_go_to_date(dialog: &mut GoToDateDialog, parsed: Option<CalendarDate>) -> (open_date: Option<CalendarDate>)
    ensures
        open_date == parsed,
        final(dialog).input@ == old(dialog).input@,
        parsed is Some ==> !final(dialog).open && final(dialog).error is None,
        parsed is None ==> final(dialog).open == old(dialog).open && (final(dialog).error matches Some(e)
            && e@ == invalid_date_message()),
{
    match parsed {
        Some(date) => {
            dialog.open = false;
            dialog.error = None;
            Some(date)
        },
        None => {
            dialog.error = Some(String::from_str("Invalid date. Please use YYYY-MM-DD format."));
            None
        },
    }
}

/// Handles an event of the "go to date" dialog and gives the date to
/// select and open, if any. Typing replaces the text and clears the error;
/// cancelling closes the dialog and clears the error; confirming reads the
/// trimmed text as a `%Y-%m-%d` date.
pub fn go_to_date_event(dialog: &mut GoToDateDialog, event: DialogEvent) -> (open_date: Option<CalendarDate>)
    ensures
        event matches DialogEvent::Typed(t) ==> final(dialog).input@ == t@ && final(dialog).error is None
            && final(dialog).open == old(dialog).open && open_date is None,
        event is Cancel ==> !final(dialog).open && final(dialog).error is None
            && final(dialog).input@ == old(dialog).input@ && open_date is None,
        event is Confirm ==> {
            &&& final(dialog).input@ == old(dialog).input@
            &&& match iso_date_parse(trim_spec(old(dialog).input@)) {
                Some((y, m, d)) => open_date matches Some(date) && date.year == y && date.month == m
                    && date.day == d && date.is_valid() && !final(dialog).open && final(dialog).error is None,
                None => open_date is None && final(dialog).open == old(dialog).open
                    && (final(dialog).error matches Some(e) && e@ == invalid_date_message()),
            }
        },
{
    match event {
        DialogEvent::Typed(t) => {
            dialog.input = t;
            dialog.error = None;
            None
        },
        DialogEvent::Cancel => {
            dialog.open = false;
            dialog.error = None;
            None
        },
        DialogEvent::Confirm => {
            let trimmed = trim_text(dialog.input.as_str());
            let parsed = parse_iso_date(trimmed.as_str());
            confirm_go_to_date(dialog, parsed)
        },
    }
}

/// The quick-capture fields that react to Enter.
#[derive(Debug, Clone, Copy, PartialEq, Eq, Structural)]
pub enum CaptureField {
    Title,
    Body,
}

/// Enter saves the capture from the title field unless Shift is held, and
/// from the body only with Ctrl (or Cmd) held.
pub open spec fn capture_key_saves(field: CaptureField, key: Key, m: Modifiers) -> bool {
    key is Enter && match field {
        CaptureField::Title => !m.shift,
        CaptureField::Body => m.ctrl || m.meta,
    }
}

/// Whether a key pressed in a quick-capture field saves the capture.
pub fn capture_key_action(field: CaptureField, key: &Key, m: &Modifiers) -> (saves: bool)
    ensures
        saves == capture_key_saves(field, *key, *m),
{
    match key {
        Key::Enter => match field {
            CaptureField::Title => !m.shift,
            CaptureField::Body => m.ctrl || m.meta,
        },
        _ => false,
    }
}

/// Enter in the title field saves unless Shift is held; Enter in the body
/// saves only with Ctrl or Cmd; no other key saves.
pub proof fn lemma_capture_keys(key: Key, m: Modifiers)
    ensures
        capture_key_saves(CaptureField::Title, key, m) <==> (key is Enter && !m.shift),
        capture_key_saves(CaptureField::Body, key, m) <==> (key is Enter && (m.ctrl || m.meta)),
{
}

} // verus!
