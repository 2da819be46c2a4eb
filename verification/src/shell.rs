//! What is handed to the system shell to open a project.

use vstd::prelude::*;
use vstd::string::StringExecFns;

verus! {

/// The shell command that opens the editor in `path`. The path goes in as
/// it is, unescaped.
pub open spec fn editor_command_text(path: Seq<char>) -> Seq<char> {
    "cd "@ + path + " && nvim ."@
}

/// The shell command that opens the editor in `path`.
pub fn editor_command(path: &str) -> (command: String)
    ensures
        command@ == editor_command_text(path@),
{
    let mut command = String::from_str("cd ");
    command.append(path);
    command.append(" && nvim .");
    command
}

} // verus!
