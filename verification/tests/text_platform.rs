use shell::platform::{
    home_fallback, is_executable_mode, is_executable_name, username_fallback,
};
use shell::prompt::{clear_sequence, prompt_line, prompt_path};
use shell::textfmt::{dec_u64, pad_left, pad_right, str_lex_le};

#[test]
fn home_defaults_to_current_directory() {
    assert_eq!(home_fallback(Some("/home/u".to_string())), "/home/u");
    assert_eq!(home_fallback(None), ".");
}

#[test]
fn username_defaults_to_user() {
    assert_eq!(username_fallback(Some("alice".to_string())), "alice");
    assert_eq!(username_fallback(None), "user");
}

#[test]
fn execute_bits() {
    assert!(is_executable_mode(0o755));
    assert!(is_executable_mode(0o100));
    assert!(is_executable_mode(0o010));
    assert!(is_executable_mode(0o001));
    assert!(!is_executable_mode(0o644));
    assert!(!is_executable_mode(0));
}

#[test]
fn executable_extensions_fold_case() {
    assert!(is_executable_name("PROG.EXE"));
    assert!(is_executable_name("run.bat"));
    assert!(is_executable_name("Setup.Cmd"));
    assert!(is_executable_name("script.ps1"));
    assert!(is_executable_name("legacy.COM"));
    assert!(!is_executable_name("notes.txt"));
    assert!(!is_executable_name("exe"));
}

#[test]
fn prompt_abbreviates_home() {
    assert_eq!(prompt_path("/home/u/docs", "/home/u"), "~/docs");
    assert_eq!(prompt_path("/home/u", "/home/u"), "~");
    assert_eq!(prompt_path("/home/u/", "/home/u"), "~");
    assert_eq!(prompt_path("/etc", "/home/u"), "/etc");
}

#[test]
fn prompt_line_is_colored() {
    assert_eq!(prompt_line("/home/u", "/home/u"), "\x1B[1;36m~\x1B[0m > ");
}

#[test]
fn clear_control_sequence() {
    assert_eq!(clear_sequence(), "\x1B[2J\x1B[3J\x1B[H");
}

#[test]
fn decimal_rendering() {
    assert_eq!(dec_u64(0), "0");
    assert_eq!(dec_u64(7), "7");
    assert_eq!(dec_u64(9876543210), "9876543210");
}

#[test]
fn padding() {
    assert_eq!(pad_left("ab", 5), "   ab");
    assert_eq!(pad_right("ab", 5), "ab   ");
    assert_eq!(pad_left("abcdef", 5), "abcdef");
}

#[test]
fn lexicographic_order() {
    assert!(str_lex_le("abc", "abd"));
    assert!(!str_lex_le("abd", "abc"));
    assert!(str_lex_le("ab", "abc"));
    assert!(str_lex_le("", "a"));
    assert!(str_lex_le("same", "same"));
}
