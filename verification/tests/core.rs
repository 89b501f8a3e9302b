use cognilite::chat::{
    extract_mentions, file_kind, fuzzy_match, is_mentioned, model_display_name, split_at_paths,
    username_color,
};
use cognilite::cli::{
    get_ollama_url, parse_headless_args, parse_remote_arg, parse_remote_arg_headless,
    parse_server_args, parse_u16, url_encode,
};
use cognilite::codec::{b64, base64_encode};
use cognilite::config::{CtxStrategy, NeuronMode};
use cognilite::message::{AttachmentKind, Role};
use cognilite::prompt::{
    build_raw_prompt, build_runtime_context, detect_template_format, u64_to_decimal, RuntimeMode,
    TemplateFormat,
};
use cognilite::websocket::{parse_query, url_decode, SessionConfig};

fn argv(a: &[&str]) -> Vec<String> {
    a.iter().map(|s| s.to_string()).collect()
}

// ── config ────────────────────────────────────────────────────────────────

#[test]
fn ctx_strategy_index_roundtrip() {
    assert_eq!(CtxStrategy::Dynamic.index(), 0);
    assert_eq!(CtxStrategy::Full.index(), 1);
    assert!(CtxStrategy::from_index(1) == CtxStrategy::Full);
    assert!(CtxStrategy::from_index(0) == CtxStrategy::Dynamic);
    assert!(CtxStrategy::from_index(7) == CtxStrategy::Dynamic);
    assert!(CtxStrategy::from_index(CtxStrategy::Full.index()) == CtxStrategy::Full);
}

#[test]
fn ctx_strategy_names() {
    assert_eq!(CtxStrategy::Full.as_str(), "full");
    assert_eq!(CtxStrategy::Dynamic.as_str(), "dynamic");
    assert!(CtxStrategy::from_str("full") == CtxStrategy::Full);
    assert!(CtxStrategy::from_str("anything") == CtxStrategy::Dynamic);
    assert!(CtxStrategy::from_str(CtxStrategy::Dynamic.as_str()) == CtxStrategy::Dynamic);
}

#[test]
fn neuron_mode_names_roundtrip() {
    for m in [NeuronMode::Manual, NeuronMode::Smart, NeuronMode::Presets] {
        assert!(NeuronMode::from_str(m.as_str()) == m);
    }
    assert!(NeuronMode::from_str("bogus") == NeuronMode::Manual);
    assert_eq!(NeuronMode::Presets.as_str(), "presets");
}

#[test]
fn role_api_names() {
    assert_eq!(Role::User.to_api_str(), "user");
    assert_eq!(Role::Tool.to_api_str(), "user");
    assert_eq!(Role::Assistant.to_api_str(), "assistant");
}

// ── prompt ────────────────────────────────────────────────────────────────

#[test]
fn decimal_text() {
    assert_eq!(u64_to_decimal(0), "0");
    assert_eq!(u64_to_decimal(8192), "8192");
    assert_eq!(u64_to_decimal(u64::MAX), "18446744073709551615");
}

#[test]
fn template_format_detection() {
    assert!(matches!(detect_template_format("{{ .System }}<|im_start|>"), Some(TemplateFormat::ChatML)));
    assert!(matches!(detect_template_format("<|start_header_id|>x"), Some(TemplateFormat::Llama3)));
    assert!(matches!(detect_template_format("<start_of_turn>user"), Some(TemplateFormat::Gemma)));
    assert!(detect_template_format("plain").is_none());
}

fn hist(items: &[(&str, &str)]) -> Vec<(String, String)> {
    items.iter().map(|(a, b)| (a.to_string(), b.to_string())).collect()
}

#[test]
fn raw_prompt_chatml_leaves_assistant_open() {
    let h = hist(&[("user", "hi"), ("assistant", "let me check")]);
    let p = build_raw_prompt(TemplateFormat::ChatML, Some("SYS"), &h);
    assert_eq!(
        p,
        "<|im_start|>system\nSYS<|im_end|>\n<|im_start|>user\nhi<|im_end|>\n<|im_start|>assistant\nlet me check"
    );
}

#[test]
fn raw_prompt_chatml_opens_new_turn() {
    let h = hist(&[("user", "hi")]);
    let p = build_raw_prompt(TemplateFormat::ChatML, None, &h);
    assert_eq!(p, "<|im_start|>user\nhi<|im_end|>\n<|im_start|>assistant\n");
}

#[test]
fn raw_prompt_llama3() {
    let h = hist(&[("user", "q")]);
    let p = build_raw_prompt(TemplateFormat::Llama3, Some("S"), &h);
    assert_eq!(
        p,
        "<|begin_of_text|><|start_header_id|>system<|end_header_id|>\n\nS<|eot_id|><|start_header_id|>user<|end_header_id|>\n\nq<|eot_id|><|start_header_id|>assistant<|end_header_id|>\n\n"
    );
}

#[test]
fn raw_prompt_gemma_folds_system_into_first_user_turn() {
    let h = hist(&[("user", "q"), ("assistant", "a")]);
    let p = build_raw_prompt(TemplateFormat::Gemma, Some("S"), &h);
    assert_eq!(p, "<start_of_turn>user\nS\n\nq<end_of_turn>\n<start_of_turn>model\na");
}

#[test]
fn raw_prompt_gemma_system_without_user_turn() {
    let h = hist(&[("assistant", "a")]);
    let p = build_raw_prompt(TemplateFormat::Gemma, Some("S"), &h);
    assert_eq!(p, "<start_of_turn>user\nS<end_of_turn>\n<start_of_turn>model\na");
}

#[test]
fn runtime_context_headless() {
    let c = build_runtime_context("qwen", Some(32768), RuntimeMode::Headless);
    assert!(c.starts_with("## Runtime context\n\nMode: **headless** (CLI) · Model: `qwen` · Context window: 32k\n\n"));
    let u = build_runtime_context("m", None, RuntimeMode::Tui);
    assert!(u.contains("Context window: unknown"));
}

#[test]
fn runtime_context_remote_tui_auto_yes() {
    let c = build_runtime_context("m", Some(1024), RuntimeMode::RemoteTui { auto_yes: true });
    assert!(c.ends_with("identically to the local TUI. All confirmations are auto-accepted (`--yes` is active)."));
}

// ── codec ─────────────────────────────────────────────────────────────────

#[test]
fn base64_known_values() {
    assert_eq!(base64_encode(b""), "");
    assert_eq!(base64_encode(b"f"), "Zg==");
    assert_eq!(base64_encode(b"fo"), "Zm8=");
    assert_eq!(base64_encode(b"foo"), "Zm9v");
    assert_eq!(base64_encode(b"foobar"), "Zm9vYmFy");
    assert_eq!(b64(b"cognilite-remote-00"), "Y29nbmlsaXRlLXJlbW90ZS0wMA==");
    assert_eq!(b64(&[0xff, 0xfe]), base64_encode(&[0xff, 0xfe]));
}

// ── chat ──────────────────────────────────────────────────────────────────

#[test]
fn model_names_lose_their_tag() {
    assert_eq!(model_display_name("qwen3.6:latest"), "qwen3.6");
    assert_eq!(model_display_name("llama3"), "llama3");
}

#[test]
fn mentions_are_extracted_and_lowered() {
    let m = extract_mentions("hey #Alice, and #bob#a1b2! not #, nor #x!y");
    assert_eq!(m, vec!["alice".to_string(), "bob#a1b2".to_string()]);
}

#[test]
fn mention_checks() {
    assert!(is_mentioned("Bob#A1B2", "ping #bob#a1b2 please"));
    assert!(is_mentioned("carol#ffff", "#all look"));
    assert!(!is_mentioned("carol#ffff", "#carol only"));
}

#[test]
fn fuzzy_matching_ignores_case() {
    assert!(fuzzy_match("", "anything"));
    assert!(fuzzy_match("QW", "qwen3"));
    assert!(!fuzzy_match("llama", "qwen3"));
}

#[test]
fn at_paths_are_split_out() {
    let (text, paths) = split_at_paths("look at @src/main.rs and @ nothing");
    assert_eq!(text, "look at and @ nothing");
    assert_eq!(paths, vec!["src/main.rs".to_string()]);
}

#[test]
fn file_kinds_by_extension() {
    assert_eq!(file_kind("shot.PNG"), Some(AttachmentKind::Image));
    assert_eq!(file_kind("a/b/photo.jpeg"), Some(AttachmentKind::Image));
    assert_eq!(file_kind("main.rs"), Some(AttachmentKind::Text));
    assert_eq!(file_kind("Makefile"), None);
}

#[test]
fn user_colors_follow_djb2() {
    let c = username_color("alice");
    assert_eq!((c.r, c.g, c.b), (250, 179, 135));
    let c = username_color("bob");
    assert_eq!((c.r, c.g, c.b), (166, 227, 161));
    let c = username_color("");
    assert_eq!((c.r, c.g, c.b), (116, 199, 236));
}

// ── command line ──────────────────────────────────────────────────────────

#[test]
fn url_encoding() {
    assert_eq!(url_encode("a b&c"), "a%20b%26c");
    assert_eq!(url_encode("ñ-_.~"), "ñ-_.~");
    assert_eq!(url_encode("é/"), "é%2F");
    assert_eq!(url_encode("€"), "%E2%82%AC");
    assert_eq!(url_encode("💬"), "%F0%9F%92%AC");
}

#[test]
fn port_parsing() {
    assert_eq!(parse_u16("8765"), Some(8765));
    assert_eq!(parse_u16("+80"), Some(80));
    assert_eq!(parse_u16("65536"), None);
    assert_eq!(parse_u16("x1"), None);
    assert_eq!(parse_u16(""), None);
}

#[test]
fn server_arguments() {
    assert_eq!(parse_server_args(&argv(&["--headless"])), None);
    assert_eq!(
        parse_server_args(&argv(&["--server"])),
        Some(("0.0.0.0".to_string(), 8765, false))
    );
    assert_eq!(
        parse_server_args(&argv(&["--server", "--host", "127.0.0.1", "--port", "9000", "--thinking"])),
        Some(("127.0.0.1".to_string(), 9000, true))
    );
    assert_eq!(
        parse_server_args(&argv(&["--server", "--port", "nope"])),
        Some(("0.0.0.0".to_string(), 8765, false))
    );
}

#[test]
fn ollama_url_choice() {
    assert_eq!(get_ollama_url(&argv(&["--ollama-url", "http://h:1"]), Some("http://env:2")), "http://h:1");
    assert_eq!(get_ollama_url(&argv(&["x"]), Some("http://env:2")), "http://env:2");
    assert_eq!(get_ollama_url(&argv(&["--ollama-url"]), None), "http://localhost:11434");
}

#[test]
fn remote_url_for_tui() {
    let u = parse_remote_arg(&argv(&["--remote", "ws://h:8765/id/r1", "-m", "qwen", "--yes"]), "ann");
    assert_eq!(u, Some("ws://h:8765/id/r1?model=qwen&yes=true&client=tui&username=ann".to_string()));
    let u = parse_remote_arg(&argv(&["--remote", "ws://h/x?a=1", "--username", "b c"]), "ann");
    assert_eq!(u, Some("ws://h/x?a=1&username=b%20c&client=tui".to_string()));
    assert_eq!(parse_remote_arg(&argv(&["--remote"]), "ann"), None);
}

#[test]
fn remote_url_for_headless() {
    let u = parse_remote_arg_headless(&argv(&["--headless", "--remote", "ws://h", "--thinking"]), "");
    assert_eq!(u, Some("ws://h?thinking=true".to_string()));
    let u = parse_remote_arg_headless(&argv(&["--remote", "ws://h"]), "zoe");
    assert_eq!(u, Some("ws://h?username=zoe".to_string()));
}

#[test]
fn headless_arguments() {
    assert!(parse_headless_args(&argv(&["--server"])).is_none());
    let h = parse_headless_args(&argv(&[
        "--headless", "--model", "qwen", "--pin", "a.rs", "-y", "--temperature", "0.2",
        "--ctx-strategy", "full", "--port", "9", "hello there",
    ]))
    .unwrap();
    assert_eq!(h.model.as_deref(), Some("qwen"));
    assert_eq!(h.pin, vec!["a.rs".to_string()]);
    assert!(h.yes);
    assert_eq!(h.temperature.as_deref(), Some("0.2"));
    assert!(h.ctx_strategy == Some(CtxStrategy::Full));
    assert_eq!(h.message.as_deref(), Some("hello there"));
    assert!(!h.keep_alive);
}

// ── WebSocket query ───────────────────────────────────────────────────────

#[test]
fn url_decoding() {
    assert_eq!(url_decode("a%20b+c"), "a b c");
    assert_eq!(url_decode("%C3%B1"), "\u{c3}\u{b1}");
    assert_eq!(url_decode("100%"), "100");
    assert_eq!(url_decode("a%zzb"), "ab");
}

#[test]
fn query_parsing() {
    let q = parse_query("/ws?model=qwen&no_neuron=a&no_neuron=b&thinking=1");
    assert_eq!(q.get("model"), Some(&vec!["qwen".to_string()]));
    assert_eq!(q.get("no_neuron"), Some(&vec!["a".to_string(), "b".to_string()]));
    assert!(q.get("yes").is_none());
}

#[test]
fn session_config_from_query() {
    let q = parse_query("/ws?model=m1&neuron_mode=smart&yes=true&client=tui&no_neuron=x");
    let c = SessionConfig::from_query(&q, true, "srv");
    assert_eq!(c.model.as_deref(), Some("m1"));
    assert!(c.neuron_mode == Some(NeuronMode::Smart));
    assert!(c.yes && !c.thinking && c.thinking_srv && c.tui_client);
    assert_eq!(c.no_neurons, vec!["x".to_string()]);
    assert_eq!(c.username, "srv");
    let q = parse_query("/ws?username=ana");
    let c = SessionConfig::from_query(&q, false, "srv");
    assert_eq!(c.username, "ana");
    assert!(!c.tui_client);
}

#[test]
fn session_config_reads_no_neurons_like_the_http_body() {
    let q = parse_query("/ws?no_neurons=Insula&username=a");
    let c = SessionConfig::from_query(&q, false, "srv");
    assert_eq!(c.no_neurons, vec!["Insula".to_string()]);
    let q = parse_query("/ws?no_neuron=A&no_neurons=B");
    assert_eq!(SessionConfig::from_query(&q, false, "srv").no_neurons, vec!["A".to_string(), "B".to_string()]);
}

#[test]
fn url_encoding_round_trips_ascii() {
    let s = "a b+c%/d?x=1&y=~";
    assert_eq!(url_decode(&url_encode(s)), s);
}

#[test]
fn url_encoding_keeps_non_ascii_letters() {
    assert_eq!(url_encode("café 日本"), "café%20日本");
    assert_eq!(url_decode(&url_encode("café 日本")), "café 日本");
    assert_eq!(url_encode("€"), "%E2%82%AC");
    assert_ne!(url_decode(&url_encode("€")), "€");
}
