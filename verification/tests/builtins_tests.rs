use shell_core::builtins::BuiltinAction;
use shell_core::builtins::BuiltinCommand;
use shell_core::tokenizer::Shell;

fn strings(parts: &[&str]) -> Vec<String> {
    parts.iter().map(|p| p.to_string()).collect()
}

#[test]
fn every_builtin_name_is_classified() {
    assert_eq!(BuiltinCommand::from_str("echo"), Some(BuiltinCommand::Echo));
    assert_eq!(BuiltinCommand::from_str("type"), Some(BuiltinCommand::Type));
    assert_eq!(BuiltinCommand::from_str("exit"), Some(BuiltinCommand::Exit));
    assert_eq!(BuiltinCommand::from_str("pwd"), Some(BuiltinCommand::Pwd));
    assert_eq!(BuiltinCommand::from_str("cd"), Some(BuiltinCommand::Cd));
}

#[test]
fn unknown_names_are_no_builtin() {
    assert_eq!(BuiltinCommand::from_str("ls"), None);
    assert_eq!(BuiltinCommand::from_str("Echo"), None);
    assert_eq!(BuiltinCommand::from_str("ech"), None);
    assert_eq!(BuiltinCommand::from_str(""), None);
}

#[test]
fn echo_joins_args_with_single_spaces() {
    let shell = Shell;
    assert_eq!(shell.cmd_echo(&strings(&["a", "b", "c"])), "a b c");
}

#[test]
fn echo_preserves_internal_spacing_of_a_quoted_arg() {
    let shell = Shell;
    let args = shell.parse_args("'hello   world'");
    assert_eq!(shell.cmd_echo(&args), "hello   world");
}

#[test]
fn echo_with_no_args_prints_an_empty_line() {
    let shell = Shell;
    assert_eq!(shell.cmd_echo(&strings(&[])), "");
}

#[test]
fn pwd_with_no_args_queries_the_working_directory() {
    let shell = Shell;
    let action = BuiltinCommand::Pwd.execute(&shell, strings(&[]), None);
    assert_eq!(action, BuiltinAction::QueryCwd);
}

#[test]
fn pwd_with_args_only_reports_the_error() {
    let shell = Shell;
    let action = BuiltinCommand::Pwd.execute(&shell, strings(&["extra", "arg"]), None);
    assert_eq!(
        action,
        BuiltinAction::PrintErr {
            line: "pwd: too many arguments".to_string()
        }
    );
}

#[test]
fn cd_uses_its_first_arg_verbatim() {
    let shell = Shell;
    let target = shell.cmd_cd(&strings(&["/tmp"]), &Some("/home/someone".to_string()));
    assert_eq!(target, "/tmp");
}

#[test]
fn cd_ignores_trailing_args() {
    let shell = Shell;
    let target = shell.cmd_cd(&strings(&["/tmp", "ignored"]), &None);
    assert_eq!(target, "/tmp");
}

#[test]
fn cd_with_no_args_goes_home() {
    let shell = Shell;
    let target = shell.cmd_cd(&strings(&[]), &Some("/home/someone".to_string()));
    assert_eq!(target, "/home/someone");
}

#[test]
fn cd_tilde_goes_home() {
    let shell = Shell;
    let target = shell.cmd_cd(&strings(&["~"]), &Some("/home/someone".to_string()));
    assert_eq!(target, "/home/someone");
}

#[test]
fn cd_without_a_home_falls_back_to_the_root() {
    let shell = Shell;
    let target = shell.cmd_cd(&strings(&[]), &None);
    assert_eq!(target, "/");
}

#[test]
fn exit_with_no_args_terminates_with_zero() {
    let shell = Shell;
    let action = BuiltinCommand::Exit.execute(&shell, strings(&[]), None);
    assert_eq!(action, BuiltinAction::Terminate { code: 0 });
}

#[test]
fn exit_with_a_number_terminates_with_that_status() {
    let shell = Shell;
    let action = BuiltinCommand::Exit.execute(&shell, strings(&["42"]), None);
    assert_eq!(action, BuiltinAction::Terminate { code: 42 });
}

#[test]
fn exit_with_a_word_only_reports_the_error() {
    let shell = Shell;
    let action = BuiltinCommand::Exit.execute(&shell, strings(&["abc"]), None);
    assert_eq!(
        action,
        BuiltinAction::PrintErr {
            line: "exit: too many arguments".to_string()
        }
    );
}

#[test]
fn exit_with_two_args_only_reports_the_error() {
    let shell = Shell;
    let action = BuiltinCommand::Exit.execute(&shell, strings(&["1", "2"]), None);
    assert_eq!(
        action,
        BuiltinAction::PrintErr {
            line: "exit: too many arguments".to_string()
        }
    );
}

#[test]
fn type_hands_its_names_on_for_classification() {
    let shell = Shell;
    let action = BuiltinCommand::Type.execute(&shell, strings(&["cd", "ls"]), None);
    assert_eq!(
        action,
        BuiltinAction::ClassifyNames {
            names: strings(&["cd", "ls"])
        }
    );
}

#[test]
fn echo_action_carries_the_joined_line() {
    let shell = Shell;
    let action = BuiltinCommand::Echo.execute(&shell, strings(&["hello", "world"]), None);
    assert_eq!(
        action,
        BuiltinAction::Print {
            line: "hello world".to_string()
        }
    );
}
