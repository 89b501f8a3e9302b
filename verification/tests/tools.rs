use cognilite::tools::{
    apply_edit, command_line, edit_applied, edit_not_found, command_outcome, full_tool_args, glob_listing, glob_name,
    is_builtin_tool, is_destructive_shell, needs_confirmation, parse_edit, parse_usize,
    render_read, split_grep_args, split_read_args, split_tool_call, split_write_args, tool_display,
    tool_label, truncate_output, truncate_results, EditError,
};

#[test]
fn destructive_commands_are_caught() {
    assert!(is_destructive_shell("rm -rf build"));
    assert!(is_destructive_shell("ls; sudo /usr/bin/rm x"));
    assert!(is_destructive_shell("cat a | git reset --hard"));
    assert!(is_destructive_shell("echo hi && mv a b"));
    assert!(!is_destructive_shell("git status"));
    assert!(!is_destructive_shell("ls -la | grep rm"));
    assert!(!is_destructive_shell(""));
    assert!(!is_destructive_shell("sudo"));
}

#[test]
fn confirmation_is_needed_for_destructive_shell_only() {
    assert!(needs_confirmation("  rm -rf x ", false));
    assert!(!needs_confirmation("rm -rf x", true));
    assert!(!needs_confirmation("write_file a.txt\nrm", false));
    assert!(!needs_confirmation("ls", false));
    assert!(is_builtin_tool("read_file"));
    assert!(!is_builtin_tool("cat"));
}

#[test]
fn tool_call_splitting() {
    let (c, a) = split_tool_call("read_file  @src/main.rs ");
    assert_eq!((c.as_str(), a.as_str()), ("read_file", "src/main.rs"));
    let (c, a) = split_tool_call("ls");
    assert_eq!((c.as_str(), a.as_str()), ("ls", ""));
    assert_eq!(full_tool_args("write_file\n@a.txt\nbody"), "a.txt\nbody");
    assert_eq!(full_tool_args("ls"), "");
    assert_eq!(command_line("grep -rn", "foo"), "grep -rn foo");
    assert_eq!(command_line("ls", ""), "ls");
}

#[test]
fn search_results_are_capped() {
    assert_eq!(truncate_results("  \n"), "No matches found.");
    assert_eq!(truncate_results("a:1\nb:2\n"), "a:1\nb:2");
    let many: String = (0..150).map(|i| format!("f:{i}\n")).collect();
    let r = truncate_results(&many);
    assert!(r.ends_with("f:99\n[truncated at 100 results]"));
    assert_eq!(r.lines().count(), 101);
}

#[test]
fn shell_output_is_capped_by_lines() {
    let out: String = (0..600).map(|i| format!("{i}\n")).collect();
    let r = truncate_output(&out);
    let head: String = (0..500).map(|i| format!("{i}\n")).collect();
    let extra = out.len() - head.len();
    assert_eq!(
        r,
        format!("{head}\n[... truncated: 100 more lines, {extra} more bytes — pipe to head/sed or use read_file with offset]")
    );
    assert_eq!(truncate_output("small"), "small");
}

#[test]
fn shell_output_is_capped_by_bytes() {
    let out = "é".repeat(20000);
    let r = truncate_output(&out);
    let head = "é".repeat(16384);
    assert_eq!(
        r,
        format!("{head}\n[... truncated: 0 more lines, 7232 more bytes — pipe to head/sed or use read_file with offset]")
    );
}

#[test]
fn command_outcomes() {
    assert_eq!(command_outcome(true, "", ""), "Done.");
    assert_eq!(command_outcome(true, "out", "warn"), "out");
    assert_eq!(command_outcome(false, "out", "bad"), "error: bad");
    assert_eq!(command_outcome(false, "out", ""), "error: out");
}

#[test]
fn usize_parsing() {
    assert_eq!(parse_usize("42"), Some(42));
    assert_eq!(parse_usize("+7"), Some(7));
    assert_eq!(parse_usize("-1"), None);
    assert_eq!(parse_usize("+"), None);
    assert_eq!(parse_usize("99999999999999999999999"), None);
}

#[test]
fn read_arguments() {
    assert_eq!(split_read_args("   "), None);
    assert_eq!(split_read_args(" a.rs "), Some(("a.rs".to_string(), None, None)));
    assert_eq!(
        split_read_args("a.rs 10 20 30"),
        Some(("a.rs".to_string(), Some("10".to_string()), Some("20 30".to_string())))
    );
}

#[test]
fn read_listing_window() {
    let r = render_read("f.txt", "one\ntwo\nthree\n", Some("2".to_string()), None);
    assert_eq!(r, "f.txt (3 lines)\n   2 | two\n   3 | three");
    let r = render_read("f.txt", "one\ntwo", Some("9".to_string()), Some("1".to_string()));
    assert_eq!(r, "f.txt (2 lines)\n");
    let big: String = (1..=600).map(|i| format!("l{i}\n")).collect();
    let r = render_read("big", &big, None, None);
    assert!(r.starts_with("big (600 lines)\n   1 | l1\n"));
    assert!(r.ends_with(" 500 | l500\n[... 100 more lines — use: read_file big 501 600]"));
}

#[test]
fn write_arguments() {
    assert_eq!(split_write_args("a.txt"), None);
    assert_eq!(
        split_write_args(" a.txt \nline1\nline2"),
        Some(("a.txt".to_string(), "line1\nline2".to_string()))
    );
}

#[test]
fn edit_arguments() {
    let ok = parse_edit("x.rs\n<<<FIND\nold\n<<<REPLACE\nnew\n");
    assert_eq!(ok, Ok(("x.rs".to_string(), "old\n".to_string(), "new\n".to_string())));
    assert_eq!(parse_edit("x.rs"), Err(EditError::Usage));
    assert_eq!(parse_edit("x.rs\nno markers"), Err(EditError::MissingFind));
    assert_eq!(parse_edit("x.rs\n<<<FIND\nold"), Err(EditError::MissingReplace));
    assert_eq!(parse_edit("x.rs\n<<<REPLACE\n<<<FIND\n"), Err(EditError::ReplaceBeforeFind));
    assert_eq!(EditError::MissingFind.message(), "error: missing <<<FIND marker");
    assert_eq!(
        EditError::Usage.message(),
        "error: usage: edit_file <path>\\n<<<FIND\\n<old>\\n<<<REPLACE\\n<new>"
    );
}

#[test]
fn edits_replace_the_first_occurrence() {
    assert_eq!(apply_edit("a b a", "a", "c"), Some("c b a".to_string()));
    assert_eq!(apply_edit("abc", "x", "y"), None);
    assert_eq!(apply_edit("abc", "", "_"), Some("_abc".to_string()));
}

#[test]
fn search_arguments() {
    assert_eq!(split_grep_args("fn main"), ("fn".to_string(), "main".to_string()));
    assert_eq!(split_grep_args("TODO"), ("TODO".to_string(), ".".to_string()));
    assert_eq!(split_grep_args("TODO   "), ("TODO".to_string(), ".".to_string()));
    assert_eq!(glob_name(" src/**/*.rs "), "*.rs");
    assert_eq!(glob_name("*.toml"), "*.toml");
}

#[test]
fn file_lists_are_sorted() {
    assert_eq!(glob_listing(" \n"), "No files matched.");
    assert_eq!(glob_listing("./b.rs\n./a.rs\n./C.rs\n"), "./C.rs\n./a.rs\n./b.rs");
}

#[test]
fn tool_output_display() {
    assert_eq!(tool_display("a\nb"), "a\nb");
    let long: String = (0..20).map(|i| format!("{i}\n")).collect();
    let head: Vec<String> = (0..15).map(|i| i.to_string()).collect();
    assert_eq!(
        tool_display(&long),
        format!("{}\n[... 5 more lines — full output sent to model]", head.join("\n"))
    );
    assert_eq!(tool_label("src/main.rs"), "main.rs");
    assert_eq!(tool_label(""), ".");
    assert_eq!(tool_label(".."), "..");
}

#[test]
fn edit_file_round_trip() {
    let args = format!("{}\n<<<FIND\n{}<<<REPLACE\n{}", "src/a.rs", "let x = 1;\n", "let x = 2;\n");
    let (p, old, new) = parse_edit(&args).unwrap();
    assert_eq!((p.as_str(), old.as_str(), new.as_str()), ("src/a.rs", "let x = 1;\n", "let x = 2;\n"));
    let t = "a\nlet x = 1;\nlet x = 1;\n";
    assert_eq!(apply_edit(t, &old, &new), Some(t.replacen(&old, &new, 1)));
    assert_eq!(apply_edit("b\n", &old, &new), None);
    assert_eq!(edit_applied(&p), "Edit applied to src/a.rs");
    assert_eq!(edit_not_found(&p), "error: old string not found in src/a.rs — verify exact whitespace and newlines");
}

#[test]
fn read_file_whole_listing() {
    let t: String = (1..=502).map(|i| format!("l{i}\n")).collect();
    let r = render_read("f.txt", &t, None, None);
    assert!(r.starts_with("f.txt (502 lines)\n   1 | l1\n   2 | l2\n"));
    assert!(r.ends_with(" 500 | l500\n[... 2 more lines — use: read_file f.txt 501 502]"));
    assert_eq!(split_read_args("f.txt"), Some(("f.txt".to_string(), None, None)));
}
