use cognilite::chat_keys::AskMode;
use cognilite::layout::{ask_height, chat_scroll, input_height, input_rows_of, input_scroll};
use cognilite::scan::{auto_answer, choice_answer, confirm_answer, patch_accepted, server_scan, ServerReplyEvent};
use cognilite::tags::AskKind;
use cognilite::turns::{continuation_prompt, num_ctx, plan_answer, AnswerPlan};

// ── what the server and the headless runner read in a reply ──────────────

#[test]
fn server_reads_tags_in_order() {
    let ns = vec!["Shell".to_string()];
    let t = server_scan("<think>x</think>run <tool>ls</tool> tail", &[], &ns, true);
    assert_eq!(t.content, "<think>x</think>run");
    assert!(matches!(t.event, ServerReplyEvent::ToolCall(ref c) if c == "ls"));
    let th = server_scan("<thought>x</thought>run <tool>ls</tool>", &[], &ns, true);
    assert_eq!(th.content, "<thought>x</thought>run");
    let cli = server_scan("<thought>x</thought>run <tool>ls</tool>", &[], &ns, false);
    assert_eq!(cli.content, "<thought>x</thought>run");
    let l = server_scan("a <load_neuron>shell</load_neuron> <ask>q?</ask>", &[], &ns, true);
    assert!(matches!(l.event, ServerReplyEvent::LoadNeuron(0)));
    assert_eq!(l.content, "a <ask>q?</ask>");
    let loaded = vec!["shell".to_string()];
    let a = server_scan("a <load_neuron>shell</load_neuron> <ask>q?</ask>", &loaded, &ns, true);
    assert!(matches!(a.event, ServerReplyEvent::Ask(AskKind::Text, ref q) if q == "q?"));
    let m = server_scan("hi <mood>😀</mood> <preview path=\"x.rs\"/>", &[], &ns, true);
    assert_eq!(m.mood.as_deref(), Some("😀"));
    assert_eq!(m.preview.as_deref(), Some("x.rs"));
    assert_eq!(m.content, "hi");
    let h = server_scan("hi <mood>😀</mood> <preview path=\"x.rs\"/>", &[], &ns, false);
    assert_eq!(h.preview, None);
    assert_eq!(h.content, "hi <preview path=\"x.rs\"/>");
}

#[test]
fn answers_without_a_person() {
    assert_eq!(auto_answer(&AskKind::Confirm), "Yes");
    assert_eq!(auto_answer(&AskKind::Choice(vec!["a".to_string(), "b".to_string()])), "a");
    assert_eq!(auto_answer(&AskKind::Choice(vec![])), "");
    assert_eq!(auto_answer(&AskKind::Text), "");
    assert!(patch_accepted(Some("y")));
    assert!(patch_accepted(Some("Yes")));
    assert!(!patch_accepted(Some("YES")));
    assert!(!patch_accepted(None));
}

#[test]
fn typed_answers() {
    assert_eq!(confirm_answer("  Y \n"), "Yes");
    assert_eq!(confirm_answer("YES"), "Yes");
    assert_eq!(confirm_answer("nope"), "No");
    assert_eq!(confirm_answer(""), "No");
    let opts = vec!["a".to_string(), "b".to_string()];
    assert_eq!(choice_answer("2\n", &opts), "b");
    assert_eq!(choice_answer("x", &opts), "a");
    assert_eq!(choice_answer("0", &opts), "a");
    assert_eq!(choice_answer("3", &opts), "");
    assert_eq!(choice_answer("+2", &opts), "b");
}

// ── answering and starting replies ───────────────────────────────────────

#[test]
fn answer_plans() {
    assert_eq!(plan_answer(true, true, true, true, "Yes"), AnswerPlan::RemotePatch);
    assert_eq!(plan_answer(true, false, false, true, "x"), AnswerPlan::RemoteAnswer);
    assert_eq!(plan_answer(false, true, true, true, "Yes"), AnswerPlan::RunTool);
    assert_eq!(plan_answer(false, true, true, true, "yes"), AnswerPlan::DeclineTool);
    assert_eq!(plan_answer(false, false, true, true, "Yes"), AnswerPlan::ApplyPatch);
    assert_eq!(plan_answer(false, false, true, true, "No"), AnswerPlan::DeclinePatch);
    assert_eq!(plan_answer(false, false, false, true, "x"), AnswerPlan::Answer);
    assert_eq!(plan_answer(false, false, false, false, "x"), AnswerPlan::Nothing);
}

#[test]
fn context_window_sizes() {
    assert_eq!(num_ctx(true, Some(32768), 100, &[], true), Some(32768));
    assert_eq!(num_ctx(false, None, 100, &[], true), None);
    assert_eq!(num_ctx(false, Some(32768), 100, &[400], true), Some(8192));
    assert_eq!(num_ctx(false, Some(131072), 5000, &[4000, 8000], false), Some(10000));
    assert_eq!(num_ctx(false, Some(131072), 5000, &[4000, 8000], true), Some(16384));
    assert_eq!(num_ctx(false, Some(131072), 100, &[40000, 3], true), Some(32768));
    assert_eq!(num_ctx(false, Some(20000), 9000, &[], true), Some(20000));
    assert_eq!(num_ctx(false, Some(4096), 0, &[], false), Some(4096));
}

#[test]
fn continuing_an_open_reply() {
    let h = vec![("user".to_string(), "hi".to_string()), ("assistant".to_string(), "partial".to_string())];
    let chatml = Some("{{ .System }}<|im_start|>{{ .Prompt }}");
    let p = continuation_prompt(&h, false, chatml, "sys").unwrap();
    assert!(p.starts_with("<|im_start|>system\nsys<|im_end|>\n"));
    assert!(p.ends_with("<|im_start|>assistant\npartial"));
    assert_eq!(continuation_prompt(&h, true, chatml, "sys"), None);
    assert_eq!(continuation_prompt(&h, false, Some("plain"), "sys"), None);
    assert_eq!(continuation_prompt(&h, false, None, "sys"), None);
    assert_eq!(continuation_prompt(&h[0..1], false, chatml, "sys"), None);
    let q = continuation_prompt(&h, false, chatml, "").unwrap();
    assert!(q.starts_with("<|im_start|>user\nhi"));
}

// ── the chat screen's layout ──────────────────────────────────────────────

#[test]
fn message_pane_scroll() {
    assert_eq!(chat_scroll(true, 3, None, 100, 20), 80);
    assert_eq!(chat_scroll(true, 3, None, 10, 20), 0);
    assert_eq!(chat_scroll(false, 500, None, 100, 20), 99);
    assert_eq!(chat_scroll(false, 40, Some(10), 100, 20), 9);
    assert_eq!(chat_scroll(false, 40, Some(70), 100, 20), 51);
    assert_eq!(chat_scroll(false, 40, Some(50), 100, 20), 40);
    assert_eq!(chat_scroll(false, 0, Some(0), 0, 20), 0);
}

#[test]
fn input_box_rows() {
    assert_eq!(input_rows_of("abcdef\n\nxy", 4), vec!["abcd".to_string(), "ef".to_string(), "".to_string(), "xy".to_string()]);
    assert_eq!(input_rows_of("", 4), vec!["".to_string()]);
    assert_eq!(input_rows_of("abc", 0), vec!["a".to_string(), "b".to_string(), "c".to_string()]);
    assert_eq!(input_scroll(9, 10), 2);
    assert_eq!(input_scroll(3, 10), 0);
    assert_eq!(input_scroll(4, 2), 4);
    assert_eq!(input_height(1), 3);
    assert_eq!(input_height(30), 10);
    assert_eq!(ask_height(AskMode::Text), 0);
    assert_eq!(ask_height(AskMode::Confirm), 1);
    assert_eq!(ask_height(AskMode::Choice(3)), 5);
    assert_eq!(ask_height(AskMode::Choice(20)), 10);
}

// ── the HTTP side of the server ───────────────────────────────────────────

use cognilite::http::{
    build_argv, chat_message, chunk_size_line, content_length, header_line, request_line, response_head, route,
    stream_head, ChatRequest, Route,
};

#[test]
fn reading_requests() {
    assert_eq!(request_line("POST /chat?x=1 HTTP/1.1\r\n"), Some(("POST".to_string(), "/chat?x=1".to_string())));
    assert_eq!(request_line("GET /"), Some(("GET".to_string(), "/".to_string())));
    assert_eq!(request_line("GARBAGE"), None);
    assert_eq!(header_line(" Content-Length :  12 \r\n"), Some(("content-length".to_string(), "12".to_string())));
    assert_eq!(header_line("Upgrade: WebSocket"), Some(("upgrade".to_string(), "WebSocket".to_string())));
    assert_eq!(header_line("no colon"), None);
    assert_eq!(content_length("12"), 12);
    assert_eq!(content_length("x"), 0);
}

#[test]
fn routing_requests() {
    assert_eq!(route("GET", "/id/abc?name=x", Some("WebSocket")), Route::WebSocket("/id/abc".to_string()));
    assert_eq!(route("POST", "/chat?k=v", None), Route::Chat);
    assert_eq!(route("GET", "/chat", None), Route::NotFound);
    assert_eq!(route("POST", "/other", Some("h2c")), Route::NotFound);
}

#[test]
fn response_framing() {
    assert_eq!(response_head("404 Not Found", 5), "HTTP/1.1 404 Not Found\r\nContent-Length: 5\r\n\r\n");
    assert_eq!(chunk_size_line(1024), "400\r\n");
    assert_eq!(chunk_size_line(255), "ff\r\n");
    assert_eq!(chunk_size_line(0), "0\r\n");
    assert!(stream_head().starts_with("HTTP/1.1 200 OK\r\n"));
    assert!(stream_head().ends_with("Access-Control-Allow-Origin: *\r\n\r\n"));
    assert_eq!(chat_message(Some("  hi  ")), Some("hi".to_string()));
    assert_eq!(chat_message(Some("   ")), None);
    assert_eq!(chat_message(None), None);
}

#[test]
fn headless_command_line() {
    let r = ChatRequest {
        yes: true,
        thinking: false,
        model: Some("qwen3".to_string()),
        neuron_mode: None,
        preset: None,
        ctx_strategy: Some("full".to_string()),
        temperature: Some("0.5".to_string()),
        top_p: None,
        repeat_penalty: None,
        no_neurons: vec!["A".to_string(), "B".to_string()],
        pin: vec![],
        attach: vec!["f.rs".to_string()],
        keep_alive: true,
    };
    let argv = build_argv(&r, "http://o:1", "hello", true);
    let expected: Vec<&str> = vec![
        "--headless", "--server-mode", "--ollama-url", "http://o:1", "--message", "hello", "--yes",
        "--thinking-stderr", "--model", "qwen3", "--ctx-strategy", "full", "--temperature", "0.5", "--no-neuron", "A",
        "--no-neuron", "B", "--attach", "f.rs", "--keep-alive",
    ];
    assert_eq!(argv, expected.iter().map(|s| s.to_string()).collect::<Vec<_>>());
}

// ── which tool a call runs ────────────────────────────────────────────────

use cognilite::dispatch::{
    destructive_question, load_neuron, neuron_label, neuron_loaded_texts, plan_tool_call, push_tool_result, resolve_tool,
    synapse_command, tool_call_label, tool_output_note, unknown_tool, ToolRun, ToolTarget,
};
use cognilite::render::{shown_piece, syntax_alias, syntax_key};
use cognilite::synapse::parse_neuron;
use cognilite::message::{Message, Role};

#[test]
fn resolving_tools() {
    let git = parse_neuron("name = Git\ndescription = g", &[], &["trigger = log\nkind = tool\ncommand = git log --oneline\nusage = log\ndescription = d"]);
    let shell = parse_neuron("name = Shell\nshell = true", &[], &[]);
    let ns = vec![git, shell];
    assert_eq!(resolve_tool(&ns, "read_file"), ToolTarget::Builtin);
    assert_eq!(resolve_tool(&ns, "log"), ToolTarget::Synapse(0, 0));
    assert_eq!(resolve_tool(&ns, "ls"), ToolTarget::Shell(1));
    assert_eq!(resolve_tool(&ns[0..1], "ls"), ToolTarget::Unknown);
    assert_eq!(tool_call_label(&ns, "read_file", ToolTarget::Builtin), "built-in › read_file");
    assert_eq!(tool_call_label(&ns, "log", ToolTarget::Synapse(0, 0)), "Git › log");
    assert_eq!(tool_call_label(&ns, "ls", ToolTarget::Shell(1)), "Shell › ls");
    assert_eq!(tool_call_label(&ns, "zz", ToolTarget::Unknown), "zz");
    assert_eq!(synapse_command(&ns, 0, 0), "git log --oneline");
    assert_eq!(unknown_tool("zz"), "unknown tool: zz");
    assert_eq!(tool_output_note("ls -la", "a\nb"), "\n[Tool output for: ls -la]\na\nb");
    assert_eq!(destructive_question("rm -rf x"), "Run destructive shell command? `rm -rf x`");
    let (c, l) = neuron_loaded_texts("Shell", "rules");
    assert_eq!(c, "## Neuron: Shell\n\nrules");
    assert_eq!(l, "Neuron loaded:\n## Neuron: Shell\n\nrules");
    assert_eq!(neuron_label("Shell"), "Neuron › Shell");
    assert_eq!(syntax_alias("py"), "Python");
    assert_eq!(syntax_alias("c++"), "C++");
    assert_eq!(syntax_alias("brainfuck"), "");
}

#[test]
fn highlighted_pieces_lose_line_breaks() {
    assert_eq!(shown_piece("fn main() {\n"), Some("fn main() {".to_string()));
    assert_eq!(shown_piece("x\r\n"), Some("x".to_string()));
    assert_eq!(shown_piece("x\n\r"), Some("x\n".to_string()));
    assert_eq!(shown_piece("\n"), None);
    assert_eq!(shown_piece("\r\n\n"), None);
    assert_eq!(shown_piece("  "), Some("  ".to_string()));
    assert_eq!(syntax_key("  RuSt \n"), "rust");
    assert_eq!(syntax_alias(&syntax_key(" Py ")), "Python");
}

#[test]
fn planning_tool_calls() {
    let git = parse_neuron("name = Git\ndescription = g", &[], &["trigger = log\nkind = tool\ncommand = git log --oneline\nusage = log\ndescription = d"]);
    let shell = parse_neuron("name = Shell\nshell = true", &[], &[]);
    let ns = vec![git, shell];
    let p = plan_tool_call(&ns, "read_file @src/a.rs 1 5");
    assert!(matches!(&p.run, ToolRun::Builtin { cmd, args } if cmd == "read_file" && args == "src/a.rs 1 5"));
    assert_eq!(p.label, "built-in › read_file");
    let p = plan_tool_call(&ns, "log -n 3");
    assert!(matches!(&p.run, ToolRun::Command { command, args } if command == "git log --oneline" && args == "-n 3"));
    assert_eq!(p.label, "Git › log");
    let p = plan_tool_call(&ns, "ls src");
    assert!(matches!(&p.run, ToolRun::Command { command, args } if command == "ls" && args == "src"));
    assert_eq!(p.label, "Shell › ls");
    assert_eq!(p.args, "src");
    let p = plan_tool_call(&ns[0..1], "ls");
    assert!(matches!(&p.run, ToolRun::Unknown(r) if r == "unknown tool: ls"));
    assert_eq!(p.label, "ls");
}

#[test]
fn tool_results_join_the_reply() {
    let mut ms = vec![Message::new(Role::Assistant, "ok".to_string(), "ok <tool>cat a.rs</tool>".to_string(), None)];
    push_tool_result(&mut ms, "cat a.rs", "fn x() {}".to_string(), "Shell › cat".to_string(), "src/a.rs");
    assert_eq!(ms.len(), 2);
    assert_eq!(ms[0].llm_content, "ok <tool>cat a.rs</tool>\n[Tool output for: cat a.rs]\nfn x() {}");
    assert_eq!(ms[1].role, Role::Tool);
    assert_eq!(ms[1].content, "fn x() {}");
    assert_eq!(ms[1].tool_call, Some("Shell › cat".to_string()));
    assert!(ms[1].tool_collapsed);
    assert_eq!(ms[1].attachments[0].filename, "a.rs");
    assert_eq!(ms[1].attachments[0].size, 9);
    let mut empty: Vec<Message> = Vec::new();
    push_tool_result(&mut empty, "ls", "é".to_string(), "ls".to_string(), "");
    assert_eq!(empty.len(), 2);
    assert_eq!(empty[0].role, Role::Assistant);
    assert_eq!(empty[0].content, "");
    assert_eq!(empty[0].llm_content, "\n[Tool output for: ls]\né");
    assert_eq!(empty[1].attachments[0].filename, ".");
    assert_eq!(empty[1].attachments[0].size, 2);
}

#[test]
fn loading_a_neuron_into_the_chat() {
    let mut ms: Vec<Message> = Vec::new();
    let mut injected = vec!["Git".to_string()];
    load_neuron(&mut ms, &mut injected, "Shell", "use é");
    assert_eq!(injected, vec!["Git".to_string(), "Shell".to_string()]);
    assert_eq!(ms.len(), 1);
    assert_eq!(ms[0].role, Role::Tool);
    assert_eq!(ms[0].content, "## Neuron: Shell\n\nuse é");
    assert_eq!(ms[0].llm_content, "Neuron loaded:\n## Neuron: Shell\n\nuse é");
    assert_eq!(ms[0].tool_call, Some("Neuron › Shell".to_string()));
    assert!(ms[0].tool_collapsed);
    assert_eq!(ms[0].attachments[0].filename, "Shell");
    assert_eq!(ms[0].attachments[0].size, 24);
}
