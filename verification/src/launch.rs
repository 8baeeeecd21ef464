//! The command that starts another editor window as a new process.

use vstd::prelude::*;

verus! {

/// A program to run and its arguments.
pub struct LaunchCommand {
    pub program: String,
    pub args: Vec<String>,
}

/// The command that opens a new window: the running program `exe`, given
/// `file` to open if there is one. `None` for `exe` or `file` stands for a
/// path that is not valid Unicode; no command is run for such an `exe`, and
/// such a `file` is left out. On Windows the program is named by the literal
/// text `path_str`.
pub fn new_window_command(exe: Option<String>, file: Option<String>, on_windows: bool) -> (r:
    Option<LaunchCommand>)
    ensures
        exe is None <==> r is None,
        r matches Some(cmd) ==> {
            &&& on_windows ==> cmd.program@ == "path_str"@
            &&& !on_windows ==> Some(cmd.program) == exe
            &&& match file {
                Some(f) => cmd.args@ == seq![f],
                None => cmd.args@.len() == 0,
            }
        },
{
    match exe {
        None => None,
        Some(exe_path) => {
            let program = if on_windows {
                proof {
                    reveal_strlit("path_str");
                }
                String::from_str("path_str")
            } else {
                exe_path
            };
            let mut args: Vec<String> = Vec::new();
            match file {
                Some(f) => args.push(f),
                None => {},
            }
            Some(LaunchCommand { program, args })
        },
    }
}

} // verus!
