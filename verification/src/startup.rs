//! Start-up decisions of the desktop program: what its command line asks
//! for, and which per-process web view session folders are stale.
use vstd::prelude::*;
use crate::settings::{parse_u32, parse_u32_spec};
use crate::text::same_text;

verus! {

/// What the program is asked to do at start-up.
#[derive(Debug, Clone, Copy, PartialEq, Eq, Structural)]
pub enum StartupCommand {
    /// Register the `nodera://` protocol handler, then exit.
    RegisterProtocol,
    /// Unregister the `nodera://` protocol handler, then exit.
    UnregisterProtocol,
    /// Open the workspace window.
    Launch,
}

/// The command an argument names, if any.
pub open spec fn argument_command(arg: Seq<char>) -> Option<StartupCommand> {
    if arg == "--register-protocol"@ || arg == "register-protocol"@ {
        Some(StartupCommand::RegisterProtocol)
    } else if arg == "--unregister-protocol"@ || arg == "unregister-protocol"@ {
        Some(StartupCommand::UnregisterProtocol)
    } else {
        None
    }
}

/// The command of the arguments `args[from..]`: the first one that names
/// a command, else launching the window.
pub open spec fn first_command(args: Seq<String>, from: int) -> StartupCommand
    decreases args.len() - from,
{
    if from >= args.len() {
        StartupCommand::Launch
    } else {
        match argument_command(args[from]@) {
            Some(c) => c,
            None => first_command(args, from + 1),
        }
    }
}

/// What the command line (the program's path first) asks for.
pub fn startup_command(args: &Vec<String>) -> (command: StartupCommand)
    ensures
        command == first_command(args@, 1),
{
    let mut i: usize = 1;
    while i < args.len()
        invariant
            1 <= i <= args.len() || (i == 1 && args.len() == 0),
            first_command(args@, 1) == first_command(args@, i as int),
        decreases args.len() - i,
    {
        let arg = args[i].as_str();
        if same_text(arg, "--register-protocol") || same_text(arg, "register-protocol") {
            return StartupCommand::RegisterProtocol;
        } else if same_text(arg, "--unregister-protocol") || same_text(arg, "unregister-protocol") {
            return StartupCommand::UnregisterProtocol;
        }
        i = i + 1;
    }
    StartupCommand::Launch
}

/// A session folder is stale when its name is "session_" followed by the
/// id of another process.
pub open spec fn is_stale_session_spec(name: Seq<char>, current_pid: u32) -> bool {
    let prefix = "session_"@;
    &&& name.len() >= prefix.len()
    &&& name.subrange(0, prefix.len() as int) == prefix
    &&& parse_u32_spec(name.subrange(prefix.len() as int, name.len() as int)) matches Some(pid)
    &&& pid != current_pid
}

/// Whether the web view session folder `name` belongs to another process
/// and can be removed.
pub fn is_stale_session(name: &str, current_pid: u32) -> (stale: bool)
    ensures
        stale == is_stale_session_spec(name@, current_pid),
{
    proof {
        reveal_strlit("session_");
    }
    let n = name.unicode_len();
    if n < 8 {
        return false;
    }
    if !same_text(name.substring_char(0, 8), "session_") {
        return false;
    }
    match parse_u32(name.substring_char(8, n)) {
        Some(pid) => pid != current_pid,
        None => false,
    }
}

/// The first argument after the program's path decides when it names a
/// command: "--register-protocol" or "register-protocol" registers,
/// "--unregister-protocol" or "unregister-protocol" unregisters; with no
/// arguments the window opens.
pub proof fn lemma_first_argument_decides(args: Seq<String>)
    ensures
        args.len() <= 1 ==> first_command(args, 1) == StartupCommand::Launch,
        args.len() > 1 && (args[1]@ == "--register-protocol"@ || args[1]@ == "register-protocol"@)
            ==> first_command(args, 1) == StartupCommand::RegisterProtocol,
        args.len() > 1 && (args[1]@ == "--unregister-protocol"@ || args[1]@ == "unregister-protocol"@)
            ==> first_command(args, 1) == StartupCommand::UnregisterProtocol,
{
    reveal_strlit("--register-protocol");
    reveal_strlit("register-protocol");
    reveal_strlit("--unregister-protocol");
    reveal_strlit("unregister-protocol");
    assert("--register-protocol"@[2] != "--unregister-protocol"@[2]);
    assert("register-protocol"@[0] != "unregister-protocol"@[0]);
    assert("--register-protocol"@[0] != "unregister-protocol"@[0]);
    assert("register-protocol"@.len() != "--unregister-protocol"@.len());
}

} // verus!
