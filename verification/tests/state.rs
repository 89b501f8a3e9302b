use cognilite::behaviour;
use cognilite::input::{Completion, CompletionKind, InputState};
use cognilite::ollama::{failed_chunk, generate_chunk, names_of, ModelEntry};
use cognilite::picker::{picker_entries, visible_entries, DirItem, FilePickerEntry};
use cognilite::pinned::{change_note, is_pinned, pinned_files_section, unpin, PinnedFile};
use cognilite::room::{room_share_url, RoomState, RoomWatch};
use cognilite::screen::StreamState;
use cognilite::synapse::{build_tool_context, parse_neuron, parse_synapse, SynapseKind};

fn state(input: &str, cursor: usize) -> InputState {
    let mut s = InputState::new();
    s.input = input.to_string();
    s.cursor_pos = cursor;
    s
}

// ── the input box ─────────────────────────────────────────────────────────

#[test]
fn insert_and_backspace() {
    let mut s = state("ac", 1);
    s.input_insert('b');
    assert_eq!((s.input.as_str(), s.cursor_pos), ("abc", 2));
    s.input_backspace();
    assert_eq!((s.input.as_str(), s.cursor_pos), ("ac", 1));
    s.input_delete();
    assert_eq!((s.input.as_str(), s.cursor_pos), ("a", 1));
    s.input_delete();
    assert_eq!(s.input, "a");
}

#[test]
fn kill_to_line_edges() {
    let mut s = state("one\ntwo three\nfour", 8);
    s.input_kill_to_end();
    assert_eq!((s.input.as_str(), s.cursor_pos), ("one\ntwo \nfour", 8));
    let mut s = state("one\ntwo three\nfour", 8);
    s.input_kill_to_start();
    assert_eq!((s.input.as_str(), s.cursor_pos), ("one\nthree\nfour", 4));
}

#[test]
fn word_editing() {
    let mut s = state("hello big  world", 11);
    s.input_delete_word_before();
    assert_eq!((s.input.as_str(), s.cursor_pos), ("hello world", 6));
    s.input_move_word_left();
    assert_eq!(s.cursor_pos, 0);
    s.input_move_word_right();
    assert_eq!(s.cursor_pos, 5);
    s.input_move_word_right();
    assert_eq!(s.cursor_pos, 11);
}

#[test]
fn line_motion() {
    let mut s = state("ab\ncdef\ng", 6);
    assert_eq!(s.cursor_row_col(), (1, 3));
    assert_eq!(s.input_line_count(), 3);
    s.input_move_up();
    assert_eq!(s.cursor_pos, 2);
    s.input_move_down();
    assert_eq!(s.cursor_pos, 5);
    s.input_move_down();
    assert_eq!(s.cursor_pos, 9);
    s.input_home();
    assert_eq!(s.cursor_pos, 8);
    s.input_end();
    assert_eq!(s.cursor_pos, 9);
    s.input_move_left();
    s.input_move_right();
    s.input_move_right();
    assert_eq!(s.cursor_pos, 9);
}

#[test]
fn history_browsing_restores_draft() {
    let mut s = state("draft", 5);
    s.input_history = vec!["first".to_string(), "second".to_string()];
    s.input_history_prev();
    assert_eq!((s.input.as_str(), s.cursor_pos, s.history_pos), ("second", 6, Some(1)));
    s.input_history_prev();
    s.input_history_prev();
    assert_eq!((s.input.as_str(), s.history_pos), ("first", Some(0)));
    s.input_history_next();
    s.input_history_next();
    assert_eq!((s.input.as_str(), s.cursor_pos, s.history_pos), ("draft", 5, None));
}

#[test]
fn tokens_before_cursor() {
    let s = state("see @src/ma", 11);
    assert_eq!(s.at_token_before_cursor(), Some((4, "src/ma".to_string())));
    let s = state("a @b c", 6);
    assert_eq!(s.at_token_before_cursor(), None);
    let s = state("x\n/rev", 6);
    assert_eq!(s.slash_token_before_cursor(), Some((2, "rev".to_string())));
    let s = state("a/b", 3);
    assert_eq!(s.slash_token_before_cursor(), None);
}

#[test]
fn template_completion_and_accept() {
    let templates = vec![
        ("review".to_string(), "Review this code".to_string()),
        ("refactor".to_string(), "Refactor it".to_string()),
        ("explain".to_string(), "Explain".to_string()),
    ];
    let mut s = state("/re", 3);
    s.update_completion(vec![], &templates);
    let c = s.completion.as_ref().unwrap();
    assert_eq!(c.candidates, vec!["review".to_string(), "refactor".to_string()]);
    assert_eq!((c.cursor, c.token_start, c.kind), (0, 0, CompletionKind::Template));
    s.complete_next();
    s.complete_next();
    s.complete_prev();
    assert_eq!(s.completion.as_ref().unwrap().cursor, 1);
    let refresh = s.complete_accept(&templates);
    assert!(!refresh);
    assert_eq!((s.input.as_str(), s.cursor_pos), ("Refactor it", 11));
    assert!(s.completion.is_none());
}

#[test]
fn path_completion_accept() {
    let mut s = state("open @sr", 8);
    s.update_completion(vec!["src/".to_string(), "srv.rs".to_string()], &[]);
    assert_eq!(s.completion.as_ref().unwrap().kind, CompletionKind::Path);
    let refresh = s.complete_accept(&[]);
    assert!(refresh);
    assert_eq!((s.input.as_str(), s.cursor_pos), ("open @src/", 10));
    s.completion = Some(Completion { candidates: vec!["x".to_string()], cursor: 0, token_start: 0, kind: CompletionKind::Path });
    s.complete_dismiss();
    assert!(s.completion.is_none());
}

// ── models and streams ────────────────────────────────────────────────────

#[test]
fn model_names_and_chunks() {
    let models = vec![
        ModelEntry { name: "a:1b".to_string(), parameter_size: None, quantization_level: None, size_bytes: Some(3) },
        ModelEntry { name: "b".to_string(), parameter_size: Some("7B".to_string()), quantization_level: None, size_bytes: None },
    ];
    assert_eq!(names_of(&models), vec!["a:1b".to_string(), "b".to_string()]);
    let c = generate_chunk(Some("tok".to_string()), None, false, None, None, None, None);
    let m = c.message.unwrap();
    assert_eq!((m.role.as_str(), m.content.as_str()), ("assistant", "tok"));
    assert!(!c.done);
    let f = failed_chunk("Request failed: x".to_string());
    assert!(f.done && f.message.is_none());
    assert_eq!(f.error.as_deref(), Some("Request failed: x"));
    assert!(StreamState::Streaming.is_streaming());
    assert!(!StreamState::Error("e".to_string()).is_streaming());
}

// ── the file picker ───────────────────────────────────────────────────────

fn item(name: &str, is_dir: bool, rel: Option<&str>) -> DirItem {
    DirItem { name: name.to_string(), is_dir, rel: rel.map(|r| r.to_string()) }
}

fn describe(v: &[FilePickerEntry]) -> Vec<String> {
    v.iter()
        .map(|e| match e {
            FilePickerEntry::Parent => "..".to_string(),
            FilePickerEntry::Dir(n) => format!("{n}/"),
            FilePickerEntry::File(f) => f.clone(),
        })
        .collect()
}

#[test]
fn picker_lists_dirs_then_text_files() {
    let items = vec![
        item(".git", true, None),
        item("Cargo.TOML", false, Some("Cargo.TOML")),
        item("image.png", false, Some("image.png")),
        item("src", true, None),
        item("target", true, None),
        item("LICENSE", false, Some("LICENSE")),
        item("outside.rs", false, None),
    ];
    assert_eq!(describe(&picker_entries(true, &items)), vec!["src/", "Cargo.TOML", "LICENSE"]);
    assert_eq!(describe(&picker_entries(false, &items)), vec!["..", "src/", "Cargo.TOML", "LICENSE"]);
}

#[test]
fn picker_search() {
    let entries = vec![
        FilePickerEntry::Parent,
        FilePickerEntry::Dir("Src".to_string()),
        FilePickerEntry::File("docs/readme.md".to_string()),
    ];
    assert_eq!(describe(&visible_entries(&entries, "")), vec!["..", "Src/", "docs/readme.md"]);
    assert_eq!(describe(&visible_entries(&entries, "SR")), vec!["Src/"]);
    assert_eq!(describe(&visible_entries(&entries, "read")), vec!["docs/readme.md"]);
}

// ── pinned files ──────────────────────────────────────────────────────────

fn pin(display: &str, content: &str) -> PinnedFile {
    PinnedFile { path: format!("/w/{display}"), display: display.to_string(), content: content.to_string(), mtime: Some(5), changed: false }
}

#[test]
fn pinned_file_tracking() {
    let mut f = pin("a.rs", "x");
    f.refresh_changed(Some(5));
    assert!(!f.changed);
    f.refresh_changed(Some(6));
    assert!(f.changed);
    f.refresh_changed(None);
    assert!(f.changed);
    assert!(f.unchanged(Some(5), "x"));
    assert!(!f.unchanged(Some(5), "y"));
    assert!(!f.unchanged(None, "x"));
}

#[test]
fn pinning_and_unpinning() {
    let mut files = vec![pin("a.rs", "A"), pin("b.rs", "B"), pin("a.rs", "A2")];
    assert!(is_pinned(&files, "b.rs"));
    assert!(!is_pinned(&files, "c.rs"));
    unpin(&mut files, "a.rs");
    assert_eq!(files.len(), 1);
    assert_eq!(files[0].display, "b.rs");
    assert_eq!(
        pinned_files_section(&files),
        "## Pinned files\n\nThese files are always in context:\n\n<file_content path=\"b.rs\">\nB\n</file_content>"
    );
    assert_eq!(
        change_note("b.rs", "\n-x\n+y\n"),
        "[b.rs changed since your last response]\n```diff\n-x\n+y\n```"
    );
}

// ── rooms ─────────────────────────────────────────────────────────────────

#[test]
fn room_messages_only_grow() {
    let mut r: RoomState<u32> = RoomState::new();
    r.announce(1);
    r.add_user_message(vec![2], "ana#1".to_string());
    r.push_token("Hel", "m#2".to_string());
    r.push_token("lo", "m#2".to_string());
    assert_eq!(r.live_tokens, "Hello");
    assert_eq!(r.live_token_version, 2);
    assert_eq!(r.unseen(1), 1);
    r.complete_turn(vec![3, 4]);
    assert_eq!(r.messages, vec![1, 2, 3, 4]);
    assert_eq!(r.version, 3);
    assert_eq!((r.live_tokens.as_str(), r.live_token_version, r.live_user.as_str()), ("", 0, ""));
    assert_eq!(r.unseen(4), 0);
    assert_eq!(r.unseen(9), 0);
}

#[test]
fn room_share_links() {
    assert_eq!(room_share_url("", "0.0.0.0:8765", "r1"), "ws://0.0.0.0:8765/id/r1");
    assert_eq!(room_share_url("ws://h:1/id/old?x=1", "", "r2"), "ws://h:1/id/r2");
    assert_eq!(room_share_url("ws://h:1//", "", "r3"), "ws://h:1/id/r3");
}

// ── neurons and behaviours ────────────────────────────────────────────────

#[test]
fn synapse_definitions() {
    let s = parse_synapse("trigger = cat\nkind = tool\ncommand = cat\ndescription = show a file\n---\n<tool>cat a</tool>\n").unwrap();
    assert_eq!(s.trigger, "cat");
    assert_eq!(s.description, "show a file");
    let SynapseKind::Tool { command, usage, example } = &s.kind;
    assert_eq!((command.as_str(), usage.as_str(), example.as_str()), ("cat", "cat", "<tool>cat a</tool>"));
    assert!(parse_synapse("kind = tool").is_none());
    assert!(parse_synapse("trigger = x\nkind = other").is_none());
}

#[test]
fn neuron_context() {
    let n = parse_neuron(
        "name = Shell\ndescription = runs commands\nshell = true",
        &["  think first  ", "", "be brief"],
        &["trigger = ls\nkind = tool\nusage = ls <dir>\ndescription = list"],
    );
    assert_eq!(n.name, "Shell");
    assert!(n.shell);
    assert_eq!(n.system_prompt, "think first\nbe brief");
    let ctx = build_tool_context(&[n]);
    assert!(ctx.starts_with("Loaded neurons: Shell\n\nEach neuron is described below:\n\nShell — runs commands:\n"));
    assert!(ctx.contains("  - ls <dir>: list\n"));
    assert!(ctx.contains("  think first\nbe brief\n"));
    assert_eq!(build_tool_context(&[]), "");
}

#[test]
fn behaviour_definitions() {
    let b = behaviour::parse("trigger = cat\nkind = tool\naction = cat\ndescription = show\n").unwrap();
    assert_eq!(b.trigger, "cat");
    let ctx = behaviour::build_tool_context(&[b]);
    assert!(ctx.starts_with("You have access to the following tools:\n- cat: show\n"));
    assert!(behaviour::parse("trigger = cat\nkind = x").is_none());
}

#[test]
fn room_watch_passes_each_token_once() {
    let mut r: RoomState<u32> = RoomState::new();
    r.announce(1);
    let mut w = RoomWatch::of(&r);
    let n = w.look(&r, 1);
    assert!(n.tokens.is_none() && n.update_from.is_none());
    r.push_token("Hel", "m#2".to_string());
    let n = w.look(&r, 1);
    assert_eq!(n.tokens, Some(("m#2".to_string(), "Hel".to_string())));
    assert_eq!(n.update_from, None);
    r.push_token("lo", "m#2".to_string());
    let n = w.look(&r, 1);
    assert_eq!(n.tokens, Some(("m#2".to_string(), "lo".to_string())));
    r.complete_turn(vec![2, 3]);
    let n = w.look(&r, 1);
    assert_eq!(n.tokens, None);
    assert_eq!(n.update_from, Some(1));
    assert_eq!((w.version, w.token_version, w.sent), (2, 0, 0));
    let n = w.look(&r, 3);
    assert!(n.tokens.is_none() && n.update_from.is_none());
}
