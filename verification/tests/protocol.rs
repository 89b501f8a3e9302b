use cognilite::frames::{
    encode_client_frame, encode_frame, extended_length_size, frame_header, payload_length, unmask,
    OP_CLOSE, OP_PING, OP_PONG, OP_TEXT,
};
use cognilite::message::{Message, Role};
use cognilite::reply::{
    add_chunk, cut_display_at, keep_through_tool_close, remove_preview_tag, render_patch, thinking_over_budget,
};
use cognilite::session::{
    choose_model, client_request, context_label, frame_action, join_notice, leave_notice,
    message_input, parse_ws_url, server_event, switching_response, upgrade_request, ClientRequest,
    FrameAction, ModelChoice, ServerEvent,
};
use cognilite::sha1::{accept_key, sha1};

fn hex(b: &[u8]) -> String {
    b.iter().map(|x| format!("{x:02x}")).collect()
}

/// Reads a frame back the way the session loop does.
fn read_back(f: &[u8]) -> (u8, Vec<u8>) {
    let (op, masked, len7) = frame_header(f[0], f[1]);
    let ext = extended_length_size(len7);
    let len = payload_length(len7, &f[2..2 + ext]) as usize;
    let mut at = 2 + ext;
    let payload = if masked {
        let mask = f[at..at + 4].to_vec();
        at += 4;
        unmask(&f[at..at + len], &mask)
    } else {
        f[at..at + len].to_vec()
    };
    assert_eq!(at + len, f.len());
    (op, payload)
}

#[test]
fn server_frames_small_and_extended() {
    assert_eq!(encode_frame(OP_TEXT, b"hi"), vec![0x81, 2, b'h', b'i']);
    assert_eq!(encode_frame(OP_CLOSE, b""), vec![0x88, 0]);
    let p = vec![7u8; 300];
    let f = encode_frame(OP_TEXT, &p);
    assert_eq!(&f[..4], &[0x81, 126, 0x01, 0x2c]);
    assert_eq!(read_back(&f), (OP_TEXT, p));
    let big = vec![1u8; 70000];
    let f = encode_frame(OP_PONG, &big);
    assert_eq!(&f[..10], &[0x8a, 127, 0, 0, 0, 0, 0, 0x01, 0x11, 0x70]);
    assert_eq!(read_back(&f), (OP_PONG, big));
}

#[test]
fn client_frames_are_masked() {
    let f = encode_client_frame(OP_TEXT, b"abc");
    assert_eq!(f[0], 0x81);
    assert_eq!(f[1], 0x80 | 3);
    assert_eq!(&f[2..6], &[0x37, 0x4f, 0x2a, 0x8c]);
    assert_eq!(f[6], b'a' ^ 0x37);
    assert_eq!(read_back(&f), (OP_TEXT, b"abc".to_vec()));
    let p: Vec<u8> = (0..200u8).collect();
    assert_eq!(read_back(&encode_client_frame(OP_PING, &p)), (OP_PING, p));
}

#[test]
fn unmasking_twice_restores() {
    let key = [1u8, 2, 3, 4];
    let data = b"payload!".to_vec();
    assert_eq!(unmask(&unmask(&data, &key), &key), data);
}

#[test]
fn sha1_known_digests() {
    assert_eq!(hex(&sha1(b"abc")), "a9993e364706816aba3e25717850c26c9cd0d89d");
    assert_eq!(hex(&sha1(b"")), "da39a3ee5e6b4b0d3255bfef95601890afd80709");
    assert_eq!(hex(&sha1(&[b'a'; 200])), "e61cfffe0d9195a525fc6cf06ca2d77119c24a40");
}

#[test]
fn handshake_accept_key() {
    assert_eq!(accept_key("dGhlIHNhbXBsZSBub25jZQ=="), "s3pPLMBiTxaQ9kYGzzhZRbK+xOo=");
    assert_eq!(
        switching_response("abc="),
        "HTTP/1.1 101 Switching Protocols\r\nUpgrade: websocket\r\nConnection: Upgrade\r\nSec-WebSocket-Accept: abc=\r\n\r\n"
    );
}

#[test]
fn frame_and_request_kinds() {
    assert_eq!(frame_action(OP_CLOSE), FrameAction::Close);
    assert_eq!(frame_action(OP_PING), FrameAction::Pong);
    assert_eq!(frame_action(OP_TEXT), FrameAction::Text);
    assert_eq!(frame_action(OP_PONG), FrameAction::Ignore);
    assert_eq!(client_request(Some("message")), ClientRequest::Message);
    assert_eq!(client_request(Some("select_model")), ClientRequest::SelectModel);
    assert_eq!(client_request(Some("nope")), ClientRequest::Other);
    assert_eq!(client_request(None), ClientRequest::Other);
    assert_eq!(server_event(Some("thinking_end")), ServerEvent::ThinkingEnd);
    assert_eq!(server_event(Some("pong")), ServerEvent::Unknown);
    assert_eq!(server_event(None), ServerEvent::Unknown);
}

#[test]
fn message_requests_become_input() {
    assert_eq!(message_input("  hi  ", &vec![]), Some("hi".to_string()));
    assert_eq!(message_input(" \n ", &vec!["a".to_string()]), None);
    assert_eq!(
        message_input("look", &vec!["a.rs".to_string(), "b/c.rs".to_string()]),
        Some("look @a.rs @b/c.rs".to_string())
    );
}

#[test]
fn model_choice_rules() {
    let models = vec!["m1".to_string(), "m2".to_string()];
    assert!(matches!(choose_model(&models, None, false), ModelChoice::Use(m) if m == "m1"));
    assert!(matches!(choose_model(&models, None, true), ModelChoice::AskClient));
    assert!(matches!(choose_model(&models, Some("m2"), true), ModelChoice::Use(m) if m == "m2"));
    assert!(matches!(choose_model(&models, Some("zz"), false), ModelChoice::NotFound(m) if m == "zz"));
    assert!(matches!(choose_model(&vec![], None, true), ModelChoice::NoModels));
    assert_eq!(context_label(Some(131072)), "128k");
    assert_eq!(context_label(None), "?");
}

#[test]
fn presence_notices() {
    assert_eq!(
        join_notice("ana"),
        ("**ana** se unió a la sala.".to_string(), "ana joined the room.".to_string())
    );
    assert_eq!(
        leave_notice("ana"),
        ("**ana** salió de la sala.".to_string(), "ana left the room.".to_string())
    );
}

#[test]
fn remote_url_and_upgrade() {
    assert_eq!(
        parse_ws_url("ws://host:8765/id/r1?x=1"),
        Some(("host:8765".to_string(), "/id/r1?x=1".to_string()))
    );
    assert_eq!(parse_ws_url("ws://host"), Some(("host".to_string(), "/ws".to_string())));
    assert_eq!(parse_ws_url("http://host"), None);
    assert_eq!(
        upgrade_request("/ws", "h:1", "k=="),
        "GET /ws HTTP/1.1\r\nHost: h:1\r\nUpgrade: websocket\r\nConnection: Upgrade\r\nSec-WebSocket-Key: k==\r\nSec-WebSocket-Version: 13\r\n\r\n"
    );
}

#[test]
fn reply_edits_after_tags() {
    assert_eq!(cut_display_at("Checking.  <tool>ls</tool> more", "<tool>"), "Checking.");
    assert_eq!(cut_display_at("<think><tool>x</tool></think>ok <tool>ls</tool>", "<tool>"), "<think><tool>x</tool></think>ok");
    assert_eq!(cut_display_at("no tag", "<ask"), "no tag");
    assert_eq!(keep_through_tool_close("a <tool>ls</tool> extra"), "a <tool>ls</tool>");
    assert_eq!(keep_through_tool_close("plain"), "plain");
}

#[test]
fn patches_render_as_diff_blocks() {
    assert_eq!(
        render_patch("Here: <patch>\n-a\n+b\n</patch> done", "\n-a\n+b\n"),
        "Here:\n```diff\n-a\n+b\n``` done"
    );
    assert_eq!(render_patch("<patch>x</patch>", "x"), "```diff\nx\n```");
    assert_eq!(render_patch("<patch>open", "x"), "<patch>open");
}

#[test]
fn preview_tags_are_removed() {
    assert_eq!(remove_preview_tag("see <preview path=\"a.rs\"/> below"), "see below");
    assert_eq!(remove_preview_tag("<preview path=\"a"), "<preview path=\"a");
    assert!(thinking_over_budget(4096, 1024));
    assert!(!thinking_over_budget(4095, 1024));
    assert!(!thinking_over_budget(1 << 20, 0));
}

#[test]
fn chunks_grow_the_reply() {
    let mut ms = vec![Message::new(Role::Assistant, String::new(), String::new(), None)];
    assert!(!add_chunk(&mut ms, "", Some("abcd"), 1));
    assert_eq!(ms[0].thinking, "abcd");
    assert!(!add_chunk(&mut ms, "", Some("efgh"), 1));
    assert_eq!(ms[0].thinking, "abcd");
    assert!(add_chunk(&mut ms, "Hi", None, 1));
    assert!(!add_chunk(&mut ms, " there", None, 1));
    assert_eq!(ms[0].content, "Hi there");
    assert_eq!(ms[0].llm_content, "Hi there");
    let mut us = vec![Message::new(Role::User, "q".to_string(), "q".to_string(), None)];
    assert!(!add_chunk(&mut us, "x", None, 0));
    assert_eq!(us[0].content, "q");
}
