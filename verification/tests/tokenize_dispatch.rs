use shell::dispatch::{dispatch_line, Action};
use shell::tokenize::tokenize;

#[test]
fn tokens_in_order() {
    let toks = tokenize("echo hello   world");
    assert_eq!(toks, vec!["echo".to_string(), "hello".to_string(), "world".to_string()]);
}

#[test]
fn tokens_of_blank_line() {
    assert_eq!(tokenize(""), Vec::<String>::new());
    assert_eq!(tokenize("   \t  "), Vec::<String>::new());
}

#[test]
fn tokens_trim_edges() {
    let toks = tokenize("  ls -l  ");
    assert_eq!(toks, vec!["ls".to_string(), "-l".to_string()]);
}

#[test]
fn first_token_is_command_rest_are_args() {
    let a = dispatch_line("prog one two three");
    match a {
        Action::Spawn { command, args } => {
            assert_eq!(command, "prog");
            assert_eq!(args, vec!["one".to_string(), "two".to_string(), "three".to_string()]);
        }
        _ => panic!("expected a spawn"),
    }
}

#[test]
fn empty_line_is_no_op() {
    assert!(matches!(dispatch_line(""), Action::Nothing));
    assert!(matches!(dispatch_line(" \t "), Action::Nothing));
}

#[test]
fn cd_without_argument_goes_home() {
    match dispatch_line("cd") {
        Action::ChangeDir { target } => assert!(target.is_none()),
        _ => panic!("expected a directory change"),
    }
}

#[test]
fn cd_with_argument_uses_it() {
    match dispatch_line("cd /tmp") {
        Action::ChangeDir { target } => assert_eq!(target.as_deref(), Some("/tmp")),
        _ => panic!("expected a directory change"),
    }
}

#[test]
fn exit_ends_the_loop() {
    assert!(matches!(dispatch_line("exit"), Action::ExitShell));
}

#[test]
fn clear_is_recognized() {
    assert!(matches!(dispatch_line("clear"), Action::ClearScreen));
}

#[test]
fn ls_without_arguments() {
    match dispatch_line("ls") {
        Action::ListDir { opts } => {
            assert!(!opts.show_details);
            assert!(!opts.show_hidden);
            assert_eq!(opts.path, ".");
        }
        _ => panic!("expected a listing"),
    }
}

#[test]
fn ls_combined_flags_and_path() {
    match dispatch_line("ls -la /var") {
        Action::ListDir { opts } => {
            assert!(opts.show_details);
            assert!(opts.show_hidden);
            assert_eq!(opts.path, "/var");
        }
        _ => panic!("expected a listing"),
    }
}

#[test]
fn ls_separate_flags() {
    match dispatch_line("ls -l -a") {
        Action::ListDir { opts } => {
            assert!(opts.show_details);
            assert!(opts.show_hidden);
            assert_eq!(opts.path, ".");
        }
        _ => panic!("expected a listing"),
    }
}

#[test]
fn ls_last_path_wins() {
    match dispatch_line("ls one two") {
        Action::ListDir { opts } => {
            assert!(!opts.show_details);
            assert!(!opts.show_hidden);
            assert_eq!(opts.path, "two");
        }
        _ => panic!("expected a listing"),
    }
}

#[test]
fn unknown_word_spawns_external_command() {
    match dispatch_line("definitely-not-a-builtin --flag") {
        Action::Spawn { command, args } => {
            assert_eq!(command, "definitely-not-a-builtin");
            assert_eq!(args, vec!["--flag".to_string()]);
        }
        _ => panic!("expected a spawn"),
    }
}
