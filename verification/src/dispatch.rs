//! The dispatch rules for a command that is no builtin, and the exact
//! user-facing text of every message the interpreter emits.

use crate::builtins::builtin_of;
use crate::builtins::BuiltinCommand;
use crate::resolver::ResolutionResult;
use crate::resolver::SpecResolution;
use vstd::prelude::*;
use vstd::string::*;

verus! {

/// What the surrounding loop must do for a command that is no
/// builtin, one case per resolution outcome.
#[derive(Clone, Debug, PartialEq, Eq)]
pub enum ExternalAction {
    /// Spawn the program at `path` with the command's arguments, the
    /// three standard streams inherited, and wait for it to finish.
    Launch { path: String },
    /// Print this message on standard error.
    ReportNotExecutable { message: String },
    /// Print this message on standard output: an unknown name is a
    /// normal answer for the user, not an error.
    ReportNotFound { message: String },
}

/// The notice for a name that resolves nowhere.
pub open spec fn not_found_message_spec(name: Seq<char>) -> Seq<char> {
    name + ": command not found"@
}

/// The message for a name whose only candidates are not executable.
pub open spec fn not_executable_message_spec(name: Seq<char>) -> Seq<char> {
    name + " is not executable"@
}

/// Decide what to do with a command that is no builtin, from the
/// outcome the resolver gave for its name.
pub fn dispatch_external(name: &str, resolution: &ResolutionResult) -> (a: ExternalAction)
    ensures
        (resolution@ matches SpecResolution::Found(p) ==> (a matches ExternalAction::Launch { path }
            && path@ == p)),
        (resolution@ is FoundNotExecutable ==> (a matches ExternalAction::ReportNotExecutable {
            message,
        } && message@ == not_executable_message_spec(name@))),
        (resolution@ is NotFound ==> (a matches ExternalAction::ReportNotFound { message }
            && message@ == not_found_message_spec(name@))),
{
    match resolution {
        ResolutionResult::Found(path) => ExternalAction::Launch { path: path.clone() },
        ResolutionResult::FoundNotExecutable(_) => ExternalAction::ReportNotExecutable {
            message: String::from_str(name).concat(" is not executable"),
        },
        ResolutionResult::NotFound => ExternalAction::ReportNotFound {
            message: String::from_str(name).concat(": command not found"),
        },
    }
}

/// The line `type` prints for one name: a builtin name is a shell
/// builtin, a name with an executable candidate is that path, and
/// anything else is not found.
pub open spec fn type_line_spec(name: Seq<char>, resolution: SpecResolution) -> Seq<char> {
    if builtin_of(name) is Some {
        name + " is a shell builtin"@
    } else {
        match resolution {
            SpecResolution::Found(path) => name + " is "@ + path,
            _ => name + ": not found"@,
        }
    }
}

/// The line `type` prints for one name.  The resolution is consulted
/// only when the name is no builtin.
pub fn type_line(name: &str, resolution: &ResolutionResult) -> (line: String)
    ensures
        line@ == type_line_spec(name@, resolution@),
{
    if BuiltinCommand::from_str(name).is_some() {
        String::from_str(name).concat(" is a shell builtin")
    } else {
        match resolution {
            ResolutionResult::Found(path) => String::from_str(name).concat(" is ").concat(
                path.as_str(),
            ),
            _ => String::from_str(name).concat(": not found"),
        }
    }
}

/// The message for a directory `cd` cannot change into.
pub open spec fn cd_error_message_spec(dir: Seq<char>) -> Seq<char> {
    "cd: "@ + dir + ": No such file or directory"@
}

/// The message for a directory `cd` cannot change into.
pub fn cd_error_message(dir: &str) -> (message: String)
    ensures
        message@ == cd_error_message_spec(dir@),
{
    String::from_str("cd: ").concat(dir).concat(": No such file or directory")
}

/// The message for a program that could not be spawned, with the
/// operating system's own words after the name.
pub open spec fn spawn_failure_message_spec(name: Seq<char>, err: Seq<char>) -> Seq<char> {
    "Failed to execute "@ + name + ": "@ + err
}

/// The message for a program that could not be spawned.
pub fn spawn_failure_message(name: &str, err: &str) -> (message: String)
    ensures
        message@ == spawn_failure_message_spec(name@, err@),
{
    String::from_str("Failed to execute ").concat(name).concat(": ").concat(err)
}

/// The message for a working directory that cannot be read, with the
/// operating system's own words at the end.
pub open spec fn pwd_error_message_spec(err: Seq<char>) -> Seq<char> {
    "pwd: error getting current directory: "@ + err
}

/// The message for a working directory that cannot be read.
pub fn pwd_error_message(err: &str) -> (message: String)
    ensures
        message@ == pwd_error_message_spec(err@),
{
    String::from_str("pwd: error getting current directory: ").concat(err)
}

/// The diagnostic for a line that ends inside a quoted region.  The
/// line is still executed as parsed: the warning is advice, not a
/// failure.
pub fn unclosed_quote_warning() -> (message: String)
    ensures
        message@ == "Warning: Unclosed quote"@,
{
    String::from_str("Warning: Unclosed quote")
}

} // verus!
