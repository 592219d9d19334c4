//! The closed set of builtin commands and what each one does with its
//! arguments.
//!
//! A builtin never touches the process itself here: it returns a
//! [`BuiltinAction`] that says what the surrounding loop must do —
//! print a line, ask for the working directory, change directory,
//! classify names, or terminate with a status code.

use crate::numbers::int_literal_value;
use crate::numbers::is_int_literal;
use crate::numbers::parse_i32;
use crate::strutil::str_eq;
use crate::tokenizer::join_spaces;
use crate::tokenizer::lemma_join_spaces_push;
use crate::tokenizer::Shell;
use vstd::prelude::*;
use vstd::string::*;

verus! {

/// The closed set of builtin commands.
#[derive(Clone, Copy, Debug, PartialEq, Eq, Structural)]
pub enum BuiltinCommand {
    Echo,
    Type,
    Exit,
    Pwd,
    Cd,
}

/// The builtin a command name denotes, if any.  Matching is exact and
/// case-sensitive.
pub open spec fn builtin_of(name: Seq<char>) -> Option<BuiltinCommand> {
    if name == "echo"@ {
        Some(BuiltinCommand::Echo)
    } else if name == "type"@ {
        Some(BuiltinCommand::Type)
    } else if name == "exit"@ {
        Some(BuiltinCommand::Exit)
    } else if name == "pwd"@ {
        Some(BuiltinCommand::Pwd)
    } else if name == "cd"@ {
        Some(BuiltinCommand::Cd)
    } else {
        None
    }
}

/// What the surrounding loop must do for a builtin: the builtins
/// themselves decide, the loop performs.
#[derive(Clone, Debug, PartialEq, Eq)]
pub enum BuiltinAction {
    /// Print this line on standard output.
    Print { line: String },
    /// Print this line on standard error.
    PrintErr { line: String },
    /// Print the current working directory on standard output.
    QueryCwd,
    /// Change the working directory to `target`; on failure print the
    /// message of [`crate::dispatch::cd_error_message`] on standard
    /// error and leave the directory as it was.
    ChangeDir { target: String },
    /// For each name in order, print the line of
    /// [`crate::dispatch::type_line`] on standard output.
    ClassifyNames { names: Vec<String> },
    /// Terminate the process with this status code.
    Terminate { code: i32 },
}

/// The directory `cd` goes to: no argument or the literal `~` means
/// the home directory, `/` when none is known; anything else is the
/// first argument taken verbatim, later arguments ignored.
pub open spec fn cd_target_spec(args: Seq<Seq<char>>, home: Option<Seq<char>>) -> Seq<char> {
    if args.len() == 0 || args[0] == "~"@ {
        match home {
            Some(h) => h,
            None => "/"@,
        }
    } else {
        args[0]
    }
}

impl BuiltinCommand {
    /// The builtin a command name denotes, if any.
    pub fn from_str(s: &str) -> (r: Option<BuiltinCommand>)
        ensures
            r == builtin_of(s@),
    {
        if str_eq(s, "echo") {
            Some(BuiltinCommand::Echo)
        } else if str_eq(s, "type") {
            Some(BuiltinCommand::Type)
        } else if str_eq(s, "exit") {
            Some(BuiltinCommand::Exit)
        } else if str_eq(s, "pwd") {
            Some(BuiltinCommand::Pwd)
        } else if str_eq(s, "cd") {
            Some(BuiltinCommand::Cd)
        } else {
            None
        }
    }

    /// Decide what this builtin does with its arguments.  `home` is the
    /// value of the home-directory variable, consulted by `cd` alone.
    pub fn execute(&self, shell: &Shell, args: Vec<String>, home: Option<String>) -> (a:
        BuiltinAction)
        ensures
            self is Echo ==> (a matches BuiltinAction::Print { line } && line@ == join_spaces(
                args.deep_view(),
            )),
            self is Type ==> (a matches BuiltinAction::ClassifyNames { names } && names.deep_view()
                == args.deep_view()),
            self is Pwd ==> pwd_action_ok(args.deep_view(), a),
            self is Cd ==> (a matches BuiltinAction::ChangeDir { target } && target@
                == cd_target_spec(args.deep_view(), home.deep_view())),
            self is Exit ==> exit_action_ok(args.deep_view(), a),
    {
        match self {
            BuiltinCommand::Echo => BuiltinAction::Print { line: shell.cmd_echo(&args) },
            BuiltinCommand::Type => BuiltinAction::ClassifyNames { names: args },
            BuiltinCommand::Exit => shell.cmd_exit(&args),
            BuiltinCommand::Pwd => shell.cmd_pwd(&args),
            BuiltinCommand::Cd => BuiltinAction::ChangeDir { target: shell.cmd_cd(&args, &home) },
        }
    }
}

/// What `pwd` owes: with no argument the working directory is printed,
/// with any argument only the error line.
pub open spec fn pwd_action_ok(args: Seq<Seq<char>>, a: BuiltinAction) -> bool {
    if args.len() == 0 {
        a is QueryCwd
    } else {
        a matches BuiltinAction::PrintErr { line } && line@ == "pwd: too many arguments"@
    }
}

/// What `exit` owes: no argument terminates with status zero, a single
/// in-range integer argument terminates with that status, and anything
/// else only reports the error.
pub open spec fn exit_action_ok(args: Seq<Seq<char>>, a: BuiltinAction) -> bool {
    if args.len() == 0 {
        a matches BuiltinAction::Terminate { code } && code == 0
    } else if args.len() == 1 && is_int_literal(args[0]) && i32::MIN <= int_literal_value(args[0])
        <= i32::MAX {
        a matches BuiltinAction::Terminate { code } && code == int_literal_value(args[0]) as i32
    } else {
        a matches BuiltinAction::PrintErr { line } && line@ == "exit: too many arguments"@
    }
}

impl Shell {
    /// The line `echo` prints: its arguments joined with single spaces.
    /// No argument gives an empty line.
    pub fn cmd_echo(&self, args: &Vec<String>) -> (line: String)
        ensures
            line@ == join_spaces(args.deep_view()),
    {
        let mut line = String::new();
        let mut k: usize = 0;
        proof {
            assert(args.deep_view().take(0) =~= Seq::<Seq<char>>::empty());
        }
        while k < args.len()
            invariant
                k <= args.len(),
                args.deep_view().len() == args@.len(),
                line@ == join_spaces(args.deep_view().take(k as int)),
            decreases args.len() - k,
        {
            let ghost dv = args.deep_view();
            let ghost line0 = line@;
            if k > 0 {
                line.append(" ");
            }
            line.append(args[k].as_str());
            proof {
                reveal_strlit(" ");
                assert(" "@ =~= seq![' ']);
                assert(dv[k as int] == args@[k as int]@);
                assert(dv.take(k as int).push(dv[k as int]) =~= dv.take(k as int + 1));
                lemma_join_spaces_push(dv.take(k as int), dv[k as int]);
                if k > 0 {
                    assert(dv.take(k as int).len() > 0);
                    assert((line0 + seq![' ']) + dv[k as int] =~= line0 + seq![' '] + dv[k as int]);
                }
            }
            k = k + 1;
        }
        proof {
            assert(args.deep_view().take(args@.len() as int) =~= args.deep_view());
        }
        line
    }

    /// What `pwd` does with its arguments.
    pub fn cmd_pwd(&self, args: &Vec<String>) -> (a: BuiltinAction)
        ensures
            pwd_action_ok(args.deep_view(), a),
    {
        if args.len() > 0 {
            BuiltinAction::PrintErr { line: String::from_str("pwd: too many arguments") }
        } else {
            BuiltinAction::QueryCwd
        }
    }

    /// The directory `cd` goes to.
    pub fn cmd_cd(&self, args: &Vec<String>, home: &Option<String>) -> (target: String)
        ensures
            target@ == cd_target_spec(args.deep_view(), home.deep_view()),
    {
        if args.len() == 0 || str_eq(args[0].as_str(), "~") {
            match home {
                Some(h) => h.clone(),
                None => String::from_str("/"),
            }
        } else {
            args[0].clone()
        }
    }

    /// What `exit` does with its arguments.
    pub fn cmd_exit(&self, args: &Vec<String>) -> (a: BuiltinAction)
        ensures
            exit_action_ok(args.deep_view(), a),
    {
        if args.len() == 0 {
            BuiltinAction::Terminate { code: 0 }
        } else if args.len() == 1 {
            proof {
                assert(args.deep_view()[0] == args@[0]@);
            }
            match parse_i32(args[0].as_str()) {
                Some(code) => BuiltinAction::Terminate { code },
                None => BuiltinAction::PrintErr {
                    line: String::from_str("exit: too many arguments"),
                },
            }
        } else {
            BuiltinAction::PrintErr { line: String::from_str("exit: too many arguments") }
        }
    }
}

} // verus!
