//! Decisions around files on disk: which directory entries the PDF finder
//! walks into or collects, which programs opening a file in an editor
//! tries, in order, and when it stops or falls back to the system opener.
use vstd::prelude::*;
use crate::text::{decimal_digits, push_decimal_u64, same_text};

verus! {

/// What the PDF finder does with a directory entry.
#[derive(Debug, Clone, Copy, PartialEq, Eq, Structural)]
pub enum PdfEntryStep {
    /// Hidden entries and build or dependency folders are passed over.
    Skip,
    /// Other directories are searched in turn.
    Descend,
    /// Files with the `pdf` extension are collected.
    Collect,
    /// Any other file is left alone.
    Ignore,
}

/// The entry is hidden, or a `target` or `node_modules` folder.
pub open spec fn is_skipped_name(name: Seq<char>) -> bool {
    (name.len() > 0 && name[0] == '.') || name == "target"@ || name == "node_modules"@
}

/// The step for an entry named `name` (empty when the name is not valid
/// text), that is a directory or not, with extension `extension`.
pub open spec fn pdf_entry_step_spec(name: Seq<char>, is_dir: bool, extension: Option<Seq<char>>) -> PdfEntryStep {
    if is_skipped_name(name) {
        PdfEntryStep::Skip
    } else if is_dir {
        PdfEntryStep::Descend
    } else if extension == Some("pdf"@) {
        PdfEntryStep::Collect
    } else {
        PdfEntryStep::Ignore
    }
}

/// Decides what the PDF finder does with one directory entry.
pub fn pdf_entry_step(name: &str, is_dir: bool, extension: Option<&str>) -> (step: PdfEntryStep)
    ensures
        step == pdf_entry_step_spec(name@, is_dir, match extension {
            Some(e) => Some(e@),
            None => None,
        }),
{
    let hidden = name.unicode_len() > 0 && name.get_char(0) == '.';
    if hidden || same_text(name, "target") || same_text(name, "node_modules") {
        PdfEntryStep::Skip
    } else if is_dir {
        PdfEntryStep::Descend
    } else {
        match extension {
            Some(e) => {
                if same_text(e, "pdf") {
                    PdfEntryStep::Collect
                } else {
                    PdfEntryStep::Ignore
                }
            },
            None => PdfEntryStep::Ignore,
        }
    }
}

/// A program to run, with its arguments.
#[derive(Debug, Clone)]
pub struct Launch {
    pub program: String,
    pub args: Vec<String>,
}

/// The argument that makes VS Code open `path` at `line`: "<path>:<line>".
pub open spec fn goto_argument_spec(path: Seq<char>, line: usize) -> Seq<char> {
    path + ":"@ + decimal_digits(line as nat)
}

/// Builds "<path>:<line>".
pub fn goto_argument(path: &str, line: usize) -> (arg: String)
    ensures
        arg@ == goto_argument_spec(path@, line),
{
    let mut arg = String::new();
    arg.append(path);
    arg.append(":");
    push_decimal_u64(&mut arg, line as u64);
    arg
}

/// The programs tried, in order, to open a file in an editor: VS Code at
/// the line, then the user's editor (`$VISUAL`, else `$EDITOR`) when one is
/// set. When none of them starts, the operating system's default opener
/// is used.
pub fn editor_launch_plan(path: &str, line: usize, user_editor: Option<String>) -> (plan: Vec<Launch>)
    ensures
        plan.len() == (if user_editor is Some { 2int } else { 1int }),
        plan[0].program@ == "code"@,
        plan[0].args@.len() == 2,
        plan[0].args@[0]@ == "-g"@,
        plan[0].args@[1]@ == goto_argument_spec(path@, line),
        user_editor matches Some(editor) ==> {
            &&& plan[1].program@ == editor@
            &&& plan[1].args@.len() == 1
            &&& plan[1].args@[0]@ == path@
        },
{
    let mut code_args: Vec<String> = Vec::new();
    code_args.push(String::from_str("-g"));
    code_args.push(goto_argument(path, line));
    let mut plan: Vec<Launch> = Vec::new();
    plan.push(Launch { program: String::from_str("code"), args: code_args });
    match user_editor {
        Some(editor) => {
            let mut editor_args: Vec<String> = Vec::new();
            editor_args.push(String::from_str(path));
            plan.push(Launch { program: editor, args: editor_args });
        },
        None => {},
    }
    plan
}

/// The operating systems whose default opener is known.
#[derive(Debug, Clone, Copy, PartialEq, Eq, Structural)]
pub enum HostOs {
    Windows,
    MacOs,
    Linux,
    /// Any other system, which has no default opener here.
    Other,
}

/// The texts of a list of arguments.
pub open spec fn arg_views(args: Seq<String>) -> Seq<Seq<char>> {
    args.map_values(|a: String| a@)
}

/// The operating system's default opener for `path`: `cmd /C start "" path`
/// on Windows, `open path` on macOS, `xdg-open path` on Linux.
pub open spec fn system_opener_spec(os: HostOs, path: Seq<char>) -> Option<(Seq<char>, Seq<Seq<char>>)> {
    match os {
        HostOs::Windows => Some(("cmd"@, seq!["/C"@, "start"@, ""@, path])),
        HostOs::MacOs => Some(("open"@, seq![path])),
        HostOs::Linux => Some(("xdg-open"@, seq![path])),
        HostOs::Other => None,
    }
}

/// The default opener of `os` for `path`, if it has one.
pub fn system_opener(os: HostOs, path: &str) -> (opener: Option<Launch>)
    ensures
        match (opener, system_opener_spec(os, path@)) {
            (Some(l), Some((program, args))) => l.program@ == program && arg_views(l.args@) == args,
            (None, None) => true,
            _ => false,
        },
{
    match os {
        HostOs::Windows => {
            let mut args: Vec<String> = Vec::new();
            args.push(String::from_str("/C"));
            args.push(String::from_str("start"));
            args.push(String::from_str(""));
            args.push(String::from_str(path));
            assert(arg_views(args@) =~= seq!["/C"@, "start"@, ""@, path@]);
            Some(Launch { program: String::from_str("cmd"), args })
        },
        HostOs::MacOs => {
            let mut args: Vec<String> = Vec::new();
            args.push(String::from_str(path));
            assert(arg_views(args@) =~= seq![path@]);
            Some(Launch { program: String::from_str("open"), args })
        },
        HostOs::Linux => {
            let mut args: Vec<String> = Vec::new();
            args.push(String::from_str(path));
            assert(arg_views(args@) =~= seq![path@]);
            Some(Launch { program: String::from_str("xdg-open"), args })
        },
        HostOs::Other => None,
    }
}

/// What opening a file in an editor does next.
#[derive(Debug, Clone, Copy, PartialEq, Eq, Structural)]
pub enum OpenAction {
    /// Start the program of this entry of the launch plan.
    TryEditor(usize),
    /// Start the operating system's default opener.
    TrySystemOpener,
    /// Nothing more to start.
    Stop,
}

/// The next step after `tried` programs were started (the last of them
/// successfully or not): the plan's programs in order until one starts,
/// then nothing more; when none started, the system opener, whose outcome
/// ends the attempt either way.
pub open spec fn open_action_spec(plan_len: int, tried: int, last_started: bool) -> OpenAction {
    if 0 < tried <= plan_len && last_started {
        OpenAction::Stop
    } else if tried < plan_len {
        OpenAction::TryEditor(tried as usize)
    } else if tried == plan_len {
        OpenAction::TrySystemOpener
    } else {
        OpenAction::Stop
    }
}

/// Decides what opening a file in an editor starts next.
pub fn open_action(plan_len: usize, tried: usize, last_started: bool) -> (action: OpenAction)
    ensures
        action == open_action_spec(plan_len as int, tried as int, last_started),
{
    if 0 < tried && tried <= plan_len && last_started {
        OpenAction::Stop
    } else if tried < plan_len {
        OpenAction::TryEditor(tried)
    } else if tried == plan_len {
        OpenAction::TrySystemOpener
    } else {
        OpenAction::Stop
    }
}

/// Opening a file stops at the first program of the plan that starts, and
/// the system opener is asked for only right after the plan's last program
/// failed to start (or when the plan is empty).
pub proof fn lemma_open_stops_at_first_start(plan_len: int, tried: int, last_started: bool)
    requires
        0 <= tried,
        0 <= plan_len,
    ensures
        0 < tried <= plan_len && last_started ==> open_action_spec(plan_len, tried, last_started) is Stop,
        open_action_spec(plan_len, tried, last_started) is TrySystemOpener ==> tried == plan_len && (tried == 0
            || !last_started),
{
}

} // verus!
