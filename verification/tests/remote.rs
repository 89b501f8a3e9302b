use cognilite::message::{AttachmentKind, Message, Role};
use cognilite::picker::{server_listing, DirItem, FilePickerEntry};
use cognilite::remote::{apply_frame, send_remote, ClientFrame, RemoteState};
use cognilite::screen::StreamState;
use cognilite::tags::AskKind;

fn state(streaming: bool) -> RemoteState {
    RemoteState {
        messages: vec![
            Message::new(Role::User, "hi".to_string(), "hi".to_string(), Some("ana#1".to_string())),
            Message::new(Role::Assistant, String::new(), String::new(), Some("qwen#2".to_string())),
        ],
        ask: None,
        pending_patch: None,
        room_live: None,
        mood: None,
        stream: if streaming { StreamState::Streaming } else { StreamState::Idle },
        listing: None,
        reply_label: Some("qwen#2".to_string()),
    }
}

#[test]
fn tokens_append_to_the_reply() {
    let mut st = state(true);
    let a = apply_frame(&mut st, ClientFrame::Thinking("plan".to_string()));
    assert!(!a.mark_thinking_end);
    let a = apply_frame(&mut st, ClientFrame::Token("Hel".to_string()));
    assert!(a.mark_thinking_end);
    let a = apply_frame(&mut st, ClientFrame::Token("lo".to_string()));
    assert!(!a.mark_thinking_end);
    let last = st.messages.last().unwrap();
    assert_eq!(last.content, "Hello");
    assert_eq!(last.llm_content, "Hello");
    assert_eq!(last.thinking, "plan");
}

#[test]
fn tool_frame_adds_entry_and_fresh_reply() {
    let mut st = state(true);
    let a = apply_frame(
        &mut st,
        ClientFrame::Tool { command: "read_file src/a.rs".to_string(), label: String::new(), result: "fn a() {}".to_string() },
    );
    assert_eq!(a.stamp_reply, Some(1));
    assert!(a.restart_clock && a.scroll_to_end);
    assert_eq!(st.messages.len(), 4);
    assert_eq!(st.messages[1].llm_content, "\n[Tool output for: read_file src/a.rs]\nfn a() {}");
    let t = &st.messages[2];
    assert_eq!(t.role, Role::Tool);
    assert_eq!(t.content, "fn a() {}");
    assert_eq!(t.tool_call.as_deref(), Some("read_file src/a.rs"));
    assert!(t.tool_collapsed);
    assert_eq!(t.attachments[0].filename, "src/a.rs");
    assert_eq!(t.attachments[0].size, 9);
    assert!(t.attachments[0].kind == AttachmentKind::Text);
    assert_eq!(st.messages[3].role, Role::Assistant);
    assert_eq!(st.messages[3].tool_call.as_deref(), Some("qwen#2"));
}

#[test]
fn ask_and_patch_stop_the_stream() {
    let mut st = state(true);
    apply_frame(&mut st, ClientFrame::Token("Choose:  ".to_string()));
    let a = apply_frame(
        &mut st,
        ClientFrame::Ask { kind: "choice".to_string(), question: "which?".to_string(), options: vec!["a".to_string(), "b".to_string()] },
    );
    assert!(a.stop_clock && a.reset_ask_cursor);
    assert!(matches!(st.stream, StreamState::Idle));
    assert_eq!(st.messages[1].content, "Choose:");
    let ask = st.ask.clone().unwrap();
    assert_eq!(ask.question, "which?");
    assert!(ask.kind == AskKind::Choice(vec!["a".to_string(), "b".to_string()]));

    let mut st = state(true);
    apply_frame(&mut st, ClientFrame::Token("Here".to_string()));
    apply_frame(&mut st, ClientFrame::Patch("  --- a\n+++ b\n".to_string()));
    assert_eq!(st.messages[1].content, "Here\n```diff\n--- a\n+++ b\n```");
    assert_eq!(st.pending_patch.as_deref(), Some("  --- a\n+++ b\n"));
    assert!(st.ask.clone().unwrap().kind == AskKind::Confirm);
}

#[test]
fn room_tokens_and_updates() {
    let mut st = state(false);
    apply_frame(&mut st, ClientFrame::RoomToken { user: "bob".to_string(), content: "a".to_string() });
    apply_frame(&mut st, ClientFrame::RoomToken { user: "bob".to_string(), content: "b".to_string() });
    assert_eq!(st.room_live, Some(("bob".to_string(), "ab".to_string())));
    apply_frame(&mut st, ClientFrame::RoomToken { user: "eve".to_string(), content: "c".to_string() });
    assert_eq!(st.room_live, Some(("eve".to_string(), "c".to_string())));
    let m = Message::new(Role::User, "yo".to_string(), String::new(), None);
    apply_frame(&mut st, ClientFrame::RoomUpdate(vec![m]));
    assert_eq!(st.messages.len(), 3);
    assert!(st.room_live.is_none());
}

#[test]
fn listing_drops_hidden_and_joins_paths() {
    let mut st = state(false);
    let entries = vec![("src".to_string(), true), (".git".to_string(), true), ("a.rs".to_string(), false)];
    apply_frame(&mut st, ClientFrame::LsResult { path: "lib//".to_string(), entries: entries.clone() });
    let (dir, list) = st.listing.take().unwrap();
    assert_eq!(dir, "lib//");
    assert_eq!(list.len(), 3);
    assert!(matches!(&list[0], FilePickerEntry::Parent));
    assert!(matches!(&list[1], FilePickerEntry::Dir(d) if d.as_str() == "lib/src"));
    assert!(matches!(&list[2], FilePickerEntry::File(f) if f.as_str() == "lib/a.rs"));
    apply_frame(&mut st, ClientFrame::LsResult { path: ".".to_string(), entries });
    let (_, list) = st.listing.take().unwrap();
    assert_eq!(list.len(), 2);
    assert!(matches!(&list[0], FilePickerEntry::Dir(d) if d.as_str() == "src"));
}

#[test]
fn connected_done_error_and_disconnect() {
    let mut st = state(true);
    let a = apply_frame(
        &mut st,
        ClientFrame::Connected {
            model: "qwen".to_string(),
            room_id: "r1".to_string(),
            session_id: String::new(),
            username: "ana#77".to_string(),
            user_session_id: "77".to_string(),
        },
    );
    assert!(matches!(st.stream, StreamState::Idle));
    let id = a.identity.unwrap();
    assert_eq!(id.username.as_deref(), Some("ana"));
    assert_eq!(id.room_id.as_deref(), Some("r1"));
    assert!(id.session_id.is_none());
    let mut st = state(true);
    let a = apply_frame(&mut st, ClientFrame::Done { tokens: 12, prompt_eval: 30 });
    assert_eq!(a.time_stats, Some(1));
    assert_eq!(st.messages[1].stats.unwrap().response_tokens, 12);
    let a = apply_frame(&mut st, ClientFrame::Disconnected);
    assert!(a.disconnect);
    assert!(matches!(&st.stream, StreamState::Error(e) if e.as_str() == "Remote server disconnected"));
}

#[test]
fn server_listing_hides_dot_entries_and_sorts_by_name() {
    let item = |name: &str, is_dir: bool| DirItem { name: name.to_string(), is_dir, rel: None };
    let items = vec![item("zeta.rs", false), item(".git", true), item("Cargo.toml", false), item("src", true), item(".env", false)];
    assert_eq!(
        server_listing(&items),
        vec![("Cargo.toml".to_string(), false), ("src".to_string(), true), ("zeta.rs".to_string(), false)]
    );
    assert!(server_listing(&Vec::new()).is_empty());
}

#[test]
fn sending_a_remote_message() {
    let mut st = state(false);
    let (content, paths) = send_remote(&mut st, "look at @src/main.rs please", "ana#1".to_string());
    assert_eq!(content, "look at please");
    assert_eq!(paths, vec!["src/main.rs".to_string()]);
    assert_eq!(st.messages.len(), 4);
    let user = &st.messages[2];
    assert_eq!(user.role, Role::User);
    assert_eq!(user.content, "look at @src/main.rs please");
    assert_eq!(user.tool_call, Some("ana#1".to_string()));
    assert_eq!(user.attachments.len(), 1);
    assert_eq!(user.attachments[0].filename, "main.rs");
    assert_eq!(user.attachments[0].path, "src/main.rs");
    assert_eq!(st.messages[3].role, Role::Assistant);
    assert_eq!(st.messages[3].tool_call, Some("qwen#2".to_string()));
    assert!(matches!(st.stream, StreamState::Streaming));
    let (only, ps) = send_remote(&mut st, "@a.txt", "ana#1".to_string());
    assert_eq!(only, "@a.txt");
    assert_eq!(ps, vec!["a.txt".to_string()]);
}
