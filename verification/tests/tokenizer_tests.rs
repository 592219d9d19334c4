use shell_core::tokenizer::Shell;

#[test]
fn splits_command_and_args() {
    let shell = Shell;
    let (name, args, unclosed) = shell.parse_command_inline("echo hello world");
    assert_eq!(name, "echo");
    assert_eq!(args, "hello world");
    assert!(!unclosed);
}

#[test]
fn empty_line_gives_empty_name() {
    let shell = Shell;
    let (name, args, unclosed) = shell.parse_command_inline("");
    assert_eq!(name, "");
    assert_eq!(args, "");
    assert!(!unclosed);
}

#[test]
fn name_alone_gives_no_args() {
    let shell = Shell;
    let (name, args, _) = shell.parse_command_inline("pwd");
    assert_eq!(name, "pwd");
    assert_eq!(args, "");
}

#[test]
fn arg_text_is_trimmed() {
    let shell = Shell;
    let (name, args, _) = shell.parse_command_inline("echo   spaced   ");
    assert_eq!(name, "echo");
    assert_eq!(args, "spaced");
}

#[test]
fn quotes_in_args_are_kept_raw() {
    let shell = Shell;
    let (name, args, unclosed) = shell.parse_command_inline("echo 'hello   world'");
    assert_eq!(name, "echo");
    assert_eq!(args, "'hello   world'");
    assert!(!unclosed);
}

#[test]
fn quoted_space_stays_in_command_name() {
    let shell = Shell;
    let (name, args, _) = shell.parse_command_inline("'my prog' x");
    assert_eq!(name, "my prog");
    assert_eq!(args, "x");
}

#[test]
fn unclosed_quote_is_reported_and_parsing_proceeds() {
    let shell = Shell;
    let (name, args, unclosed) = shell.parse_command_inline("echo 'oops");
    assert_eq!(name, "echo");
    assert_eq!(args, "'oops");
    assert!(unclosed);
}

#[test]
fn args_split_on_spaces() {
    let shell = Shell;
    let args = shell.parse_args("one two three");
    assert_eq!(args, vec!["one", "two", "three"]);
}

#[test]
fn consecutive_spaces_produce_no_empty_args() {
    let shell = Shell;
    let args = shell.parse_args("  a   b  ");
    assert_eq!(args, vec!["a", "b"]);
}

#[test]
fn quoted_spacing_is_preserved_and_quotes_dropped() {
    let shell = Shell;
    let args = shell.parse_args("'hello   world'");
    assert_eq!(args, vec!["hello   world"]);
}

#[test]
fn quotes_join_adjacent_text() {
    let shell = Shell;
    let args = shell.parse_args("a'b c'd e");
    assert_eq!(args, vec!["ab cd", "e"]);
}

#[test]
fn unterminated_quote_keeps_accumulated_text() {
    let shell = Shell;
    let args = shell.parse_args("'tail piece");
    assert_eq!(args, vec!["tail piece"]);
}

#[test]
fn empty_quotes_alone_give_no_args() {
    let shell = Shell;
    let args = shell.parse_args("''");
    assert_eq!(args, Vec::<String>::new());
}

#[test]
fn rejoining_args_collapses_whitespace() {
    let shell = Shell;
    let args = shell.parse_args("  alpha   beta  gamma ");
    assert_eq!(args.join(" "), "alpha beta gamma");
}

#[test]
fn tokenize_builds_a_parsed_command() {
    let shell = Shell;
    let (parsed, unclosed) = shell.tokenize("echo 'hello   world' next");
    assert_eq!(parsed.name, "echo");
    assert_eq!(parsed.args, vec!["hello   world", "next"]);
    assert!(!unclosed);
}

#[test]
fn tokenize_of_spaces_only_is_the_no_op_sentinel() {
    let shell = Shell;
    let (parsed, unclosed) = shell.tokenize("   ");
    assert_eq!(parsed.name, "");
    assert_eq!(parsed.args, Vec::<String>::new());
    assert!(!unclosed);
}
