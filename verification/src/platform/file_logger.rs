//! The session log: one line per record, in a file beside the crash reports.
use crate::environment::save_manager::{below, join};
use vstd::prelude::*;
use vstd::string::StringExecFns;

verus! {

/// The line that a record takes in the session log.
pub open spec fn line_text(level: Seq<char>, target: Seq<char>, args: Seq<char>) -> Seq<char> {
    "["@ + level + "] "@ + target + ": "@ + args + "\n"@
}

/// The line that a record takes in the session log.
pub fn log_line(level: &str, target: &str, args: &str) -> (r: String)
    ensures
        r@ == line_text(level@, target@, args@),
{
    let mut out: String = String::from_str("[");
    out.append(level);
    out.append("] ");
    out.append(target);
    out.append(": ");
    out.append(args);
    out.append("\n");
    out
}

/// The folder of the logs where none was given: `crash_logs` beside the
/// program, or below the working folder where the program's place is not known.
pub fn default_desktop_log_dir(program_dir: Option<&str>) -> (r: String)
    ensures
        r@ == match program_dir {
            Some(d) => below(d@, "crash_logs"@),
            None => "crash_logs"@,
        },
{
    match program_dir {
        Some(d) => join(d, "crash_logs"),
        None => String::from_str("crash_logs"),
    }
}

/// The folder that logs and crash reports go to: the one that was given, else
/// the default one. A phone has no default.
pub fn log_dir(given: Option<String>, on_phone: bool, program_dir: Option<&str>) -> (r: Option<String>)
    ensures
        match given {
            Some(d) => r is Some && r->0@ == d@,
            None => if on_phone {
                r is None
            } else {
                r is Some && r->0@ == match program_dir {
                    Some(d) => below(d@, "crash_logs"@),
                    None => "crash_logs"@,
                }
            },
        },
{
    match given {
        Some(d) => Some(d),
        None => if on_phone {
            None
        } else {
            Some(default_desktop_log_dir(program_dir))
        },
    }
}

/// The session log in a folder.
pub fn session_log_path(dir: &str) -> (r: String)
    ensures
        r@ == below(dir@, "game_log.txt"@),
{
    join(dir, "game_log.txt")
}

/// The file that the session log goes to: known once a file could be opened in
/// the chosen folder.
pub fn log_file_path(dir: &Option<String>, opened: bool) -> (r: Option<String>)
    ensures
        r is Some <==> *dir is Some && opened,
        r is Some ==> r->0@ == below(dir->0@, "game_log.txt"@),
{
    match dir {
        Some(d) => if opened {
            Some(session_log_path(d.as_str()))
        } else {
            None
        },
        None => None,
    }
}

/// A line of the log holds the level, the target and the message, and ends with
/// its only added line break.
pub proof fn law_log_lines_hold_every_part(level: Seq<char>, target: Seq<char>, args: Seq<char>)
    ensures
        ({
            let none = Seq::<char>::empty();
            line_text(level, target, args).len() == line_text(none, none, none).len() + level.len()
                + target.len() + args.len()
        }),
        line_text(level, target, args).last() == '\n',
        line_text(level, target, args)[0] == '[',
{
    reveal_strlit("\n");
    reveal_strlit("[");
}

} // verus!
