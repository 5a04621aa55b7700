//! The slash command parser.

use sven_tui::commands::parser::{parse, tokenise, ParsedCommand};

#[test]
fn non_slash_input_is_not_command() {
    assert_eq!(parse("hello"), ParsedCommand::NotCommand);
    assert_eq!(parse(""), ParsedCommand::NotCommand);
    assert_eq!(parse("model"), ParsedCommand::NotCommand);
}

#[test]
fn bare_slash_is_partial_command() {
    assert_eq!(parse("/"), ParsedCommand::PartialCommand { partial: "".into() });
}

#[test]
fn partial_command_name() {
    assert_eq!(parse("/mod"), ParsedCommand::PartialCommand { partial: "mod".into() });
    assert_eq!(parse("/mode"), ParsedCommand::PartialCommand { partial: "mode".into() });
}

#[test]
fn command_with_trailing_space_starts_completing_first_arg() {
    assert_eq!(
        parse("/model "),
        ParsedCommand::CompletingArgs {
            command: "model".into(),
            arg_index: 0,
            partial: "".into(),
        }
    );
}

#[test]
fn command_with_partial_arg() {
    assert_eq!(
        parse("/model gpt"),
        ParsedCommand::CompletingArgs {
            command: "model".into(),
            arg_index: 0,
            partial: "gpt".into(),
        }
    );
}

#[test]
fn command_with_complete_arg_and_space() {
    assert_eq!(
        parse("/model gpt-4o "),
        ParsedCommand::Complete {
            command: "model".into(),
            args: vec!["gpt-4o".into()],
        }
    );
}

#[test]
fn command_with_no_args_needed_e_g_quit_partial() {
    // "/quit" with no space: still PartialCommand (user might keep typing)
    assert_eq!(
        parse("/quit"),
        ParsedCommand::PartialCommand { partial: "quit".into() }
    );
}

#[test]
fn command_with_trailing_space_is_completing_first_arg() {
    // "/quit " with trailing space: start completing arg 0 (no args typed yet)
    assert_eq!(
        parse("/quit "),
        ParsedCommand::CompletingArgs {
            command: "quit".into(),
            arg_index: 0,
            partial: "".into(),
        }
    );
}

#[test]
fn quoted_argument_parsed_as_single_token() {
    // "/model \"my custom provider\""
    let input = "/model \"my provider\"";
    match parse(input) {
        ParsedCommand::CompletingArgs { command, arg_index, partial } => {
            assert_eq!(command, "model");
            assert_eq!(arg_index, 0);
            assert_eq!(partial, "my provider");
        }
        other => panic!("unexpected: {other:?}"),
    }
}

#[test]
fn tokenise_splits_on_spaces() {
    assert_eq!(tokenise("a b c"), vec!["a", "b", "c"]);
}

#[test]
fn tokenise_collapses_multiple_spaces() {
    assert_eq!(tokenise("a  b"), vec!["a", "b"]);
}

#[test]
fn tokenise_handles_quoted_strings() {
    assert_eq!(tokenise("\"hello world\" foo"), vec!["hello world", "foo"]);
}

#[test]
fn tokenise_empty_string() {
    assert_eq!(tokenise(""), Vec::<String>::new());
}

#[test]
fn tokenise_splits_on_any_white_space() {
    assert_eq!(tokenise("a\nb"), vec!["a", "b"]);
    assert_eq!(tokenise("a\u{a0}b\u{3000}\tc\r\nd"), vec!["a", "b", "c", "d"]);
    assert_eq!(tokenise("\"a\nb\" c"), vec!["a\nb", "c"]);
    assert_eq!(
        parse("/review\nsrc/x.rs"),
        ParsedCommand::CompletingArgs {
            command: "review".into(),
            arg_index: 0,
            partial: "src/x.rs".into(),
        }
    );
}
