use shell::listing::{display_name_of, format_listing, perms_of, time_text, EntryInfo};

fn plain_file(name: &str, size: u64) -> EntryInfo {
    EntryInfo {
        name: name.to_string(),
        is_dir: false,
        readonly: false,
        is_exec: false,
        size,
        mtime: None,
    }
}

#[test]
fn hidden_entries_only_with_show_hidden() {
    let entries = vec![plain_file(".hidden", 10), plain_file("visible.txt", 10)];
    let lines = format_listing(entries, false, false, "root");
    assert_eq!(lines, vec!["visible.txt".to_string()]);

    let entries = vec![plain_file(".hidden", 10), plain_file("visible.txt", 10)];
    let lines = format_listing(entries, false, true, "root");
    assert_eq!(lines, vec![".hidden".to_string(), "visible.txt".to_string()]);
}

#[test]
fn sort_is_case_insensitive() {
    let entries = vec![plain_file("Beta.txt", 1), plain_file("alpha.txt", 1)];
    let lines = format_listing(entries, false, false, "root");
    assert_eq!(lines, vec!["alpha.txt".to_string(), "Beta.txt".to_string()]);
}

#[test]
fn simple_mode_colors_directories_and_executables() {
    let dir = EntryInfo {
        name: "sub".to_string(),
        is_dir: true,
        readonly: false,
        is_exec: false,
        size: 0,
        mtime: None,
    };
    let exe = EntryInfo {
        name: "tool".to_string(),
        is_dir: false,
        readonly: false,
        is_exec: true,
        size: 0,
        mtime: None,
    };
    let lines = format_listing(vec![dir, exe], false, false, "root");
    assert_eq!(
        lines,
        vec![
            "\x1B[1;34msub\x1B[0m\x1B[36m/\x1B[0m".to_string(),
            "\x1B[1;32mtool\x1B[0m".to_string(),
        ]
    );
}

#[test]
fn detail_mode_total_header_and_line() {
    let entries = vec![plain_file("a.txt", 1000)];
    let lines = format_listing(entries, true, false, "root");
    assert_eq!(lines.len(), 3);
    assert_eq!(lines[0], "total 2");
    let header = String::from("\x1B[4m") + "Permissions" + " " + "Lnk" + " " + "Owner     " + " "
        + "      Size" + " " + "Modified    " + " " + "Name\x1B[0m";
    assert_eq!(lines[1], header);
    let name_col = String::from("a.txt") + &" ".repeat(35);
    let expected = String::from("-rw-r--r--") + " " + "  1" + " " + "root      " + " "
        + "      1000" + " " + "?           " + " " + &name_col;
    assert_eq!(lines[2], expected);
}

#[test]
fn detail_total_counts_hidden_entries_too() {
    let entries = vec![plain_file(".h", 512), plain_file("v", 512)];
    let lines = format_listing(entries, true, false, "root");
    // One visible entry, but the total covers both.
    assert_eq!(lines.len(), 3);
    assert_eq!(lines[0], "total 2");
}

#[test]
fn long_name_keeps_extension() {
    let name = "x".repeat(41) + ".txt";
    let col = display_name_of(&plain_file(&name, 1));
    let expected = "x".repeat(31) + "(...)" + ".txt";
    assert_eq!(col, expected);
    assert_eq!(col.chars().count(), 40);
}

#[test]
fn long_name_without_extension_is_cut() {
    let name = "y".repeat(50);
    let col = display_name_of(&plain_file(&name, 1));
    let expected = "y".repeat(35) + "(...)";
    assert_eq!(col, expected);
}

#[test]
fn archives_are_colored_by_lowercased_extension() {
    let col = display_name_of(&plain_file("DATA.ZIP", 1));
    let expected = String::from("\x1B[1;31mDATA.ZIP\x1B[0m") + &" ".repeat(32);
    assert_eq!(col, expected);
}

#[test]
fn directory_detail_line_shows_two_links_and_slash() {
    let dir = EntryInfo {
        name: "sub".to_string(),
        is_dir: true,
        readonly: false,
        is_exec: false,
        size: 0,
        mtime: None,
    };
    let lines = format_listing(vec![dir], true, false, "me");
    let name_col = String::from("\x1B[1;34msub\x1B[0m\x1B[36m/\x1B[0m") + &" ".repeat(36);
    let expected = String::from("drwxr-xr-x") + " " + "  2" + " " + "me        " + " "
        + "         0" + " " + "?           " + " " + &name_col;
    assert_eq!(lines[0], "total 0");
    assert_eq!(lines[2], expected);
}

#[test]
fn largest_size_total() {
    let entries = vec![plain_file("big", u64::MAX)];
    let lines = format_listing(entries, true, false, "root");
    assert_eq!(lines[0], "total 36028797018963968");
}

#[test]
fn equal_keys_keep_both_entries() {
    let entries = vec![plain_file("AA", 1), plain_file("aa", 1)];
    let lines = format_listing(entries, false, false, "root");
    assert_eq!(lines.len(), 2);
    assert!(lines.contains(&"AA".to_string()));
    assert!(lines.contains(&"aa".to_string()));
}

#[test]
fn permission_columns() {
    let mut e = plain_file("f", 1);
    assert_eq!(perms_of(&e), "-rw-r--r--");
    e.readonly = true;
    assert_eq!(perms_of(&e), "-r--r--r--");
    e.is_exec = true;
    assert_eq!(perms_of(&e), "-r-xr-xr-x");
    e.readonly = false;
    assert_eq!(perms_of(&e), "-rwxr-xr-x");
    e.is_dir = true;
    assert_eq!(perms_of(&e), "drwxr-xr-x");
    e.readonly = true;
    assert_eq!(perms_of(&e), "dr-xr-xr-x");
}

#[test]
fn known_time_renders_twelve_characters() {
    let t = time_text(Some(0));
    assert_eq!(t.chars().count(), 12);
    assert_eq!(time_text(None), "?");
}
