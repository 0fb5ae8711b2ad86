//! Application-wide keyboard shortcuts: which action a key asks for in
//! the current state, and the part of that action that only flips flags.
use vstd::prelude::*;
use crate::keys::{Key, Modifiers, is_char, key_is_char};

verus! {

/// The parts of the workspace state that the shortcuts read or flip.
#[derive(Debug, Clone)]
pub struct ShortcutState {
    pub show_error_dialog: bool,
    pub show_settings_modal: bool,
    pub show_command_palette: bool,
    pub show_template_modal: bool,
    pub show_pdf_import_modal: bool,
    pub show_new_note_dialog: bool,
    pub show_delete_confirm_dialog: bool,
    pub show_rename_dialog: bool,
    pub is_reading_mode: bool,
    pub sidebar_open: bool,
    /// The right inspector panel (with the local graph) is shown.
    pub context_panel_open: bool,
    /// A vault is open.
    pub has_vault: bool,
    pub active_tab_index: Option<usize>,
    pub template_search_query: String,
}

/// What a shortcut asks of the workspace.
#[derive(Debug, Clone, Copy, PartialEq, Eq, Structural)]
pub enum ShortcutAction {
    /// Escape: dismiss the error dialog.
    ClearError,
    /// Escape: close the settings modal.
    CloseSettings,
    /// Escape: hide the command palette.
    HideCommandPalette,
    /// Escape: hide the template picker.
    HideTemplateModal,
    /// Escape: close the PDF import modal.
    ClosePdfImportModal,
    /// Escape: hide the new-note dialog.
    HideNewNoteDialog,
    /// Escape: hide the delete confirmation.
    HideDeleteConfirmDialog,
    /// Escape: hide the rename dialog.
    HideRenameDialog,
    /// Ctrl+I (with or without Shift): import a PDF as Markdown.
    OpenPdfImportModal,
    /// Ctrl+Shift+F: show the command palette (global search).
    ShowCommandPalette,
    /// Ctrl+P: toggle the command palette.
    ToggleCommandPalette,
    /// Ctrl+N with a vault open: show the new-note dialog.
    ShowNewNoteDialog,
    /// Ctrl+S: save the active note.
    SaveActiveNote,
    /// Ctrl+E: toggle reading / edit mode; when it enters reading mode the
    /// table of contents is rebuilt (`refresh_outline`).
    ToggleReadingMode { refresh_outline: bool },
    /// Ctrl+Shift+D: open or create the daily note.
    OpenOrCreateDailyNote,
    /// Ctrl+T with a vault open: toggle the template picker and clear its query.
    ToggleTemplateModal,
    /// Ctrl+W with a tab open: close that tab.
    CloseTab(usize),
    /// Ctrl+[: navigate back.
    NavigateBack,
    /// Ctrl+]: navigate forward.
    NavigateForward,
    /// Ctrl+G: toggle the right inspector panel (local graph).
    ToggleInspectorPanel,
    /// Ctrl+\: toggle the sidebar.
    ToggleSidebar,
    /// Ctrl+,: open the settings.
    OpenSettings,
    /// A recognized shortcut that has nothing to do in this state.
    NoEffect,
    /// The key is not a shortcut.
    NotHandled,
}

impl ShortcutAction {
    /// The shortcut was recognized and handled.
    pub open spec fn spec_is_handled(self) -> bool {
        !(self is NotHandled)
    }

    /// Whether the shortcut was recognized and handled.
    pub fn is_handled(&self) -> (handled: bool)
        ensures
            handled == self.spec_is_handled(),
    {
        match self {
            ShortcutAction::NotHandled => false,
            _ => true,
        }
    }
}

/// Escape dismisses the topmost overlay, in this order of precedence.
pub open spec fn escape_action(s: ShortcutState) -> ShortcutAction {
    if s.show_error_dialog {
        ShortcutAction::ClearError
    } else if s.show_settings_modal {
        ShortcutAction::CloseSettings
    } else if s.show_command_palette {
        ShortcutAction::HideCommandPalette
    } else if s.show_template_modal {
        ShortcutAction::HideTemplateModal
    } else if s.show_pdf_import_modal {
        ShortcutAction::ClosePdfImportModal
    } else if s.show_new_note_dialog {
        ShortcutAction::HideNewNoteDialog
    } else if s.show_delete_confirm_dialog {
        ShortcutAction::HideDeleteConfirmDialog
    } else if s.show_rename_dialog {
        ShortcutAction::HideRenameDialog
    } else {
        ShortcutAction::NotHandled
    }
}

/// The key is the letter `lower` in either case.
pub open spec fn is_letter(key: Key, lower: char, upper: char) -> bool {
    is_char(key, lower) || is_char(key, upper)
}

/// What Ctrl (or Cmd) with `key` asks for.
pub open spec fn command_action(key: Key, m: Modifiers, s: ShortcutState) -> ShortcutAction {
    if is_letter(key, 'i', 'I') {
        ShortcutAction::OpenPdfImportModal
    } else if is_letter(key, 'f', 'F') && m.shift {
        ShortcutAction::ShowCommandPalette
    } else if is_letter(key, 'p', 'P') {
        ShortcutAction::ToggleCommandPalette
    } else if is_letter(key, 'n', 'N') {
        if s.has_vault { ShortcutAction::ShowNewNoteDialog } else { ShortcutAction::NoEffect }
    } else if is_letter(key, 's', 'S') {
        ShortcutAction::SaveActiveNote
    } else if is_letter(key, 'e', 'E') {
        ShortcutAction::ToggleReadingMode { refresh_outline: !s.is_reading_mode }
    } else if is_letter(key, 'd', 'D') && m.shift {
        ShortcutAction::OpenOrCreateDailyNote
    } else if is_letter(key, 't', 'T') && !m.shift {
        if s.has_vault { ShortcutAction::ToggleTemplateModal } else { ShortcutAction::NoEffect }
    } else if is_letter(key, 'w', 'W') {
        match s.active_tab_index {
            Some(index) => ShortcutAction::CloseTab(index),
            None => ShortcutAction::NoEffect,
        }
    } else if is_char(key, '[') {
        ShortcutAction::NavigateBack
    } else if is_char(key, ']') {
        ShortcutAction::NavigateForward
    } else if is_letter(key, 'g', 'G') {
        ShortcutAction::ToggleInspectorPanel
    } else if is_char(key, '\\') {
        ShortcutAction::ToggleSidebar
    } else if is_char(key, ',') {
        ShortcutAction::OpenSettings
    } else {
        ShortcutAction::NotHandled
    }
}

/// What a key asks for in state `s`.
pub open spec fn shortcut_action_spec(key: Key, m: Modifiers, s: ShortcutState) -> ShortcutAction {
    if key is Escape {
        escape_action(s)
    } else if !(m.ctrl || m.meta) {
        ShortcutAction::NotHandled
    } else {
        command_action(key, m, s)
    }
}

fn letter_pressed(key: &Key, lower: char, upper: char) -> (pressed: bool)
    ensures
        pressed == is_letter(*key, lower, upper),
{
    key_is_char(key, lower) || key_is_char(key, upper)
}

/// Decides which action an application-wide key press asks for.
pub fn shortcut_action(key: &Key, modifiers: &Modifiers, state: &ShortcutState) -> (action: ShortcutAction)
    ensures
        action == shortcut_action_spec(*key, *modifiers, *state),
{
    if let Key::Escape = key {
        return if state.show_error_dialog {
            ShortcutAction::ClearError
        } else if state.show_settings_modal {
            ShortcutAction::CloseSettings
        } else if state.show_command_palette {
            ShortcutAction::HideCommandPalette
        } else if state.show_template_modal {
            ShortcutAction::HideTemplateModal
        } else if state.show_pdf_import_modal {
            ShortcutAction::ClosePdfImportModal
        } else if state.show_new_note_dialog {
            ShortcutAction::HideNewNoteDialog
        } else if state.show_delete_confirm_dialog {
            ShortcutAction::HideDeleteConfirmDialog
        } else if state.show_rename_dialog {
            ShortcutAction::HideRenameDialog
        } else {
            ShortcutAction::NotHandled
        };
    }
    if !(modifiers.ctrl || modifiers.meta) {
        return ShortcutAction::NotHandled;
    }
    if letter_pressed(key, 'i', 'I') {
        ShortcutAction::OpenPdfImportModal
    } else if letter_pressed(key, 'f', 'F') && modifiers.shift {
        ShortcutAction::ShowCommandPalette
    } else if letter_pressed(key, 'p', 'P') {
        ShortcutAction::ToggleCommandPalette
    } else if letter_pressed(key, 'n', 'N') {
        if state.has_vault { ShortcutAction::ShowNewNoteDialog } else { ShortcutAction::NoEffect }
    } else if letter_pressed(key, 's', 'S') {
        ShortcutAction::SaveActiveNote
    } else if letter_pressed(key, 'e', 'E') {
        ShortcutAction::ToggleReadingMode { refresh_outline: !state.is_reading_mode }
    } else if letter_pressed(key, 'd', 'D') && modifiers.shift {
        ShortcutAction::OpenOrCreateDailyNote
    } else if letter_pressed(key, 't', 'T') && !modifiers.shift {
        if state.has_vault { ShortcutAction::ToggleTemplateModal } else { ShortcutAction::NoEffect }
    } else if letter_pressed(key, 'w', 'W') {
        match state.active_tab_index {
            Some(index) => ShortcutAction::CloseTab(index),
            None => ShortcutAction::NoEffect,
        }
    } else if key_is_char(key, '[') {
        ShortcutAction::NavigateBack
    } else if key_is_char(key, ']') {
        ShortcutAction::NavigateForward
    } else if letter_pressed(key, 'g', 'G') {
        ShortcutAction::ToggleInspectorPanel
    } else if key_is_char(key, '\\') {
        ShortcutAction::ToggleSidebar
    } else if key_is_char(key, ',') {
        ShortcutAction::OpenSettings
    } else {
        ShortcutAction::NotHandled
    }
}


/// The flags an action sets directly; the other actions leave the flags to
/// the workspace operations they name.
pub open spec fn flag_effects(old: ShortcutState, new: ShortcutState, action: ShortcutAction) -> bool {
    &&& new.show_error_dialog == old.show_error_dialog
    &&& new.show_settings_modal == old.show_settings_modal
    &&& new.show_pdf_import_modal == old.show_pdf_import_modal
    &&& new.has_vault == old.has_vault
    &&& new.active_tab_index == old.active_tab_index
    &&& new.show_command_palette == match action {
        ShortcutAction::HideCommandPalette => false,
        ShortcutAction::ShowCommandPalette => true,
        ShortcutAction::ToggleCommandPalette => !old.show_command_palette,
        _ => old.show_command_palette,
    }
    &&& new.show_template_modal == match action {
        ShortcutAction::HideTemplateModal => false,
        ShortcutAction::ToggleTemplateModal => !old.show_template_modal,
        _ => old.show_template_modal,
    }
    &&& new.show_new_note_dialog == match action {
        ShortcutAction::HideNewNoteDialog => false,
        ShortcutAction::ShowNewNoteDialog => true,
        _ => old.show_new_note_dialog,
    }
    &&& new.show_delete_confirm_dialog == (old.show_delete_confirm_dialog && !(action is HideDeleteConfirmDialog))
    &&& new.show_rename_dialog == (old.show_rename_dialog && !(action is HideRenameDialog))
    &&& new.is_reading_mode == (if action is ToggleReadingMode { !old.is_reading_mode } else { old.is_reading_mode })
    &&& new.sidebar_open == (if action is ToggleSidebar { !old.sidebar_open } else { old.sidebar_open })
    &&& new.context_panel_open == (if action is ToggleInspectorPanel {
        !old.context_panel_open
    } else {
        old.context_panel_open
    })
    &&& new.template_search_query@ == (if action is ToggleTemplateModal {
        Seq::<char>::empty()
    } else {
        old.template_search_query@
    })
}

/// Sets the flags that `action` changes directly.
pub fn apply_flag_effects(state: &mut ShortcutState, action: ShortcutAction)
    ensures
        flag_effects(*old(state), *final(state), action),
{
    match action {
        ShortcutAction::HideCommandPalette => state.show_command_palette = false,
        ShortcutAction::HideTemplateModal => state.show_template_modal = false,
        ShortcutAction::HideNewNoteDialog => state.show_new_note_dialog = false,
        ShortcutAction::HideDeleteConfirmDialog => state.show_delete_confirm_dialog = false,
        ShortcutAction::HideRenameDialog => state.show_rename_dialog = false,
        ShortcutAction::ShowCommandPalette => state.show_command_palette = true,
        ShortcutAction::ToggleCommandPalette => state.show_command_palette = !state.show_command_palette,
        ShortcutAction::ShowNewNoteDialog => state.show_new_note_dialog = true,
        ShortcutAction::ToggleReadingMode { .. } => state.is_reading_mode = !state.is_reading_mode,
        ShortcutAction::ToggleTemplateModal => {
            state.show_template_modal = !state.show_template_modal;
            state.template_search_query = String::new();
        },
        ShortcutAction::ToggleSidebar => state.sidebar_open = !state.sidebar_open,
        ShortcutAction::ToggleInspectorPanel => state.context_panel_open = !state.context_panel_open,
        _ => {},
    }
}

/// Handles an application-wide key press: decides the action, sets the
/// flags it changes directly and returns it; the caller runs the workspace
/// operation it names, and the key was handled when the action says so.
pub fn handle_global_shortcut(key: &Key, modifiers: &Modifiers, state: &mut ShortcutState) -> (action: ShortcutAction)
    ensures
        action == shortcut_action_spec(*key, *modifiers, *old(state)),
        flag_effects(*old(state), *final(state), action),
{
    let action = shortcut_action(key, modifiers, state);
    apply_flag_effects(state, action);
    action
}

/// Escape is handled exactly when some overlay is open, and it dismisses
/// the first open one in the order of precedence.
pub proof fn lemma_escape_dismisses_topmost_overlay(s: ShortcutState, m: Modifiers)
    ensures
        shortcut_action_spec(Key::Escape, m, s).spec_is_handled() <==> (s.show_error_dialog
            || s.show_settings_modal || s.show_command_palette || s.show_template_modal
            || s.show_pdf_import_modal || s.show_new_note_dialog || s.show_delete_confirm_dialog
            || s.show_rename_dialog),
        s.show_error_dialog ==> shortcut_action_spec(Key::Escape, m, s) == ShortcutAction::ClearError,
        !s.show_error_dialog && s.show_settings_modal ==> shortcut_action_spec(Key::Escape, m, s)
            == ShortcutAction::CloseSettings,
{
}

/// Without Ctrl or Cmd held, only Escape is a shortcut.
pub proof fn lemma_plain_keys_not_handled(key: Key, m: Modifiers, s: ShortcutState)
    requires
        !m.ctrl,
        !m.meta,
        !(key is Escape),
    ensures
        shortcut_action_spec(key, m, s) == ShortcutAction::NotHandled,
{
}

/// Pressing a toggling shortcut twice restores the flag it toggles.
pub proof fn lemma_toggle_twice_restores(
    s0: ShortcutState,
    s1: ShortcutState,
    s2: ShortcutState,
    action: ShortcutAction,
)
    requires
        action is ToggleCommandPalette || action is ToggleSidebar || action is ToggleReadingMode
            || action is ToggleTemplateModal || action is ToggleInspectorPanel,
        flag_effects(s0, s1, action),
        flag_effects(s1, s2, action),
    ensures
        s2.show_command_palette == s0.show_command_palette,
        s2.sidebar_open == s0.sidebar_open,
        s2.is_reading_mode == s0.is_reading_mode,
        s2.show_template_modal == s0.show_template_modal,
        s2.context_panel_open == s0.context_panel_open,
{
}

/// Cmd works as Ctrl: for every key, holding Cmd gives the action that
/// holding Ctrl gives (with Shift held or not).
pub proof fn lemma_cmd_acts_as_ctrl(key: Key, shift: bool, s: ShortcutState)
    ensures
        shortcut_action_spec(key, Modifiers { ctrl: false, meta: true, shift }, s) == shortcut_action_spec(
            key,
            Modifiers { ctrl: true, meta: false, shift },
            s,
        ),
{
}

/// Ctrl+S or Cmd+S (with Shift or not, `s` or `S`) saves the active note,
/// in every state.
pub proof fn lemma_save_shortcut(key: Key, m: Modifiers, s: ShortcutState)
    requires
        key matches Key::Character(t) && (t@ == seq!['s'] || t@ == seq!['S']),
        m.ctrl || m.meta,
    ensures
        shortcut_action_spec(key, m, s) == ShortcutAction::SaveActiveNote,
{
    let t = key->Character_0;
    assert(t@[0] == 's' || t@[0] == 'S');
    assert forall|c: char| c != 's' && c != 'S' implies !is_char(key, c) by {
        if t@ == seq![c] {
            assert(t@[0] == c);
        }
    }
    assert(is_letter(key, 's', 'S'));
    assert(!is_letter(key, 'i', 'I') && !is_letter(key, 'f', 'F') && !is_letter(key, 'p', 'P')
        && !is_letter(key, 'n', 'N'));
}

/// A key that types the single character `c` types no other character.
proof fn lemma_single_char_key(key: Key, c: char)
    requires
        key matches Key::Character(t) && t@ == seq![c],
    ensures
        is_char(key, c),
        forall|d: char| d != c ==> !is_char(key, d),
{
    let t = key->Character_0;
    assert forall|d: char| d != c implies !is_char(key, d) by {
        if t@ == seq![d] {
            assert(t@[0] == d && t@[0] == c);
        }
    }
}

/// The shortcut table: with Ctrl or Cmd held, each key asks for its
/// action in every state, the letters in either case.
pub proof fn lemma_command_keys(key: Key, c: char, m: Modifiers, s: ShortcutState)
    requires
        key matches Key::Character(t) && t@ == seq![c],
        m.ctrl || m.meta,
    ensures
        (c == 'i' || c == 'I') ==> shortcut_action_spec(key, m, s) == ShortcutAction::OpenPdfImportModal,
        (c == 'p' || c == 'P') ==> shortcut_action_spec(key, m, s) == ShortcutAction::ToggleCommandPalette,
        (c == 'f' || c == 'F') && m.shift ==> shortcut_action_spec(key, m, s) == ShortcutAction::ShowCommandPalette,
        (c == 'n' || c == 'N') && s.has_vault ==> shortcut_action_spec(key, m, s)
            == ShortcutAction::ShowNewNoteDialog,
        (c == 's' || c == 'S') ==> shortcut_action_spec(key, m, s) == ShortcutAction::SaveActiveNote,
        (c == 'e' || c == 'E') ==> shortcut_action_spec(key, m, s) == (ShortcutAction::ToggleReadingMode {
            refresh_outline: !s.is_reading_mode,
        }),
        (c == 'd' || c == 'D') && m.shift ==> shortcut_action_spec(key, m, s)
            == ShortcutAction::OpenOrCreateDailyNote,
        (c == 't' || c == 'T') && !m.shift && s.has_vault ==> shortcut_action_spec(key, m, s)
            == ShortcutAction::ToggleTemplateModal,
        (c == 'w' || c == 'W') && s.active_tab_index is Some ==> shortcut_action_spec(key, m, s)
            == ShortcutAction::CloseTab(s.active_tab_index->0),
        c == '[' ==> shortcut_action_spec(key, m, s) == ShortcutAction::NavigateBack,
        c == ']' ==> shortcut_action_spec(key, m, s) == ShortcutAction::NavigateForward,
        (c == 'g' || c == 'G') ==> shortcut_action_spec(key, m, s) == ShortcutAction::ToggleInspectorPanel,
        c == '\\' ==> shortcut_action_spec(key, m, s) == ShortcutAction::ToggleSidebar,
        c == ',' ==> shortcut_action_spec(key, m, s) == ShortcutAction::OpenSettings,
{
    lemma_single_char_key(key, c);
}

/// Escape closes the first open overlay in this order: error dialog,
/// settings, command palette, template picker, PDF import, new-note
/// dialog, delete confirmation, rename dialog; with none open it is not
/// handled. Modifier keys make no difference.
pub proof fn lemma_escape_order(s: ShortcutState, m: Modifiers)
    ensures
        shortcut_action_spec(Key::Escape, m, s) == (if s.show_error_dialog {
            ShortcutAction::ClearError
        } else if s.show_settings_modal {
            ShortcutAction::CloseSettings
        } else if s.show_command_palette {
            ShortcutAction::HideCommandPalette
        } else if s.show_template_modal {
            ShortcutAction::HideTemplateModal
        } else if s.show_pdf_import_modal {
            ShortcutAction::ClosePdfImportModal
        } else if s.show_new_note_dialog {
            ShortcutAction::HideNewNoteDialog
        } else if s.show_delete_confirm_dialog {
            ShortcutAction::HideDeleteConfirmDialog
        } else if s.show_rename_dialog {
            ShortcutAction::HideRenameDialog
        } else {
            ShortcutAction::NotHandled
        }),
{
}

} // verus!
