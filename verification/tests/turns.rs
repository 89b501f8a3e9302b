use cognilite::attach::{
    attachment_refs, base_text, completion_candidate, file_content_block, not_found_note, order_completions,
    resolve_path, split_completion, too_large_note,
};
use cognilite::config::{NeuronMode, NeuronPreset};
use cognilite::message::Role;
use cognilite::pinned::{pinned_files_section, PinnedFile};
use cognilite::synapse::{build_tool_context, parse_neuron, Neuron};
use cognilite::sysprompt::full_system_prompt;
use cognilite::turns::{
    answer_label, build_api_history, declined_label, push_history, remote_patch_status, remote_ws_url,
    user_llm_content, user_response,
};

fn neuron(name: &str) -> Neuron {
    parse_neuron(
        &format!("name = {name}\ndescription = about {name}"),
        &["think"],
        &["trigger = go\nkind = tool\nusage = go <x>\ndescription = run"],
    )
}

// ── the input history ─────────────────────────────────────────────────────

#[test]
fn history_skips_repeats_and_keeps_a_hundred() {
    let mut h: Vec<String> = Vec::new();
    push_history(&mut h, "a");
    push_history(&mut h, "a");
    assert_eq!(h, vec!["a".to_string()]);
    push_history(&mut h, "b");
    push_history(&mut h, "a");
    assert_eq!(h, vec!["a".to_string(), "b".to_string(), "a".to_string()]);
    let mut long: Vec<String> = (0..100).map(|i| i.to_string()).collect();
    push_history(&mut long, "new");
    assert_eq!(long.len(), 100);
    assert_eq!(long[0], "1");
    assert_eq!(long[99], "new");
}

// ── what the model is sent ────────────────────────────────────────────────

#[test]
fn user_content_layers() {
    assert_eq!(user_llm_content("hi", "", None, false), "hi");
    assert_eq!(user_llm_content("hi", "note", None, false), "note\n\nhi");
    assert_eq!(
        user_llm_content("hi", "", Some("a.rs"), false),
        "[UI context: the file panel is showing \"a.rs\"]\n\nhi"
    );
    let planned = user_llm_content("hi", "", None, true);
    assert!(planned.starts_with("hi\n\n[PLAN MODE:"));
    assert!(planned.ends_with("Output the plan only.]"));
}

#[test]
fn api_history_keeps_user_turns_and_non_empty_text() {
    let msgs = vec![
        (Role::Tool, "result".to_string()),
        (Role::User, "".to_string()),
        (Role::Assistant, "".to_string()),
        (Role::Assistant, "ok".to_string()),
    ];
    let h = build_api_history(&msgs);
    assert_eq!(
        h,
        vec![
            ("user".to_string(), "result".to_string()),
            ("user".to_string(), "".to_string()),
            ("assistant".to_string(), "ok".to_string()),
        ]
    );
}

#[test]
fn answers_and_declines() {
    assert_eq!(answer_label(""), "↩ User selection");
    assert_eq!(answer_label("Proceed?"), "↩ Proceed?");
    assert_eq!(user_response("Yes"), "User response: Yes");
    assert_eq!(declined_label("rm -rf /tmp/x"), "⛔ rm");
    assert_eq!(declined_label("   "), "⛔ ?");
    assert_eq!(remote_patch_status("Yes"), "Patch applied on server.");
    assert_eq!(remote_patch_status("No"), "Patch declined.");
}

#[test]
fn remote_url_parameters() {
    assert_eq!(
        remote_ws_url(" ws://h:1/ ", NeuronMode::Manual, None),
        "ws://h:1/?client=tui&neuron_mode=manual"
    );
    assert_eq!(
        remote_ws_url("ws://h:1/?name=x", NeuronMode::Presets, Some("p1")),
        "ws://h:1/?name=x&client=tui&neuron_mode=presets&preset=p1"
    );
    assert_eq!(remote_ws_url("ws://h", NeuronMode::Smart, Some("p")), "ws://h?client=tui&neuron_mode=smart");
}

// ── the system message ────────────────────────────────────────────────────

#[test]
fn system_prompt_parts() {
    let ns = vec![neuron("A"), neuron("B")];
    let none: Vec<String> = Vec::new();
    let no_pins: Vec<PinnedFile> = Vec::new();
    assert_eq!(full_system_prompt("rc", &[], NeuronMode::Manual, None, &[], &none, &none, &no_pins), "rc");
    let all = full_system_prompt("", &ns, NeuronMode::Manual, None, &[], &none, &none, &no_pins);
    assert_eq!(all, build_tool_context(&ns));
    let disabled = vec!["B".to_string()];
    let only_a = full_system_prompt("rc", &ns, NeuronMode::Manual, None, &[], &disabled, &none, &no_pins);
    assert_eq!(only_a, format!("rc\n\n---\n\n{}", build_tool_context(&ns[0..1])));
    let pure = full_system_prompt("rc", &ns, NeuronMode::Presets, Some("__pure__"), &[], &none, &none, &no_pins);
    assert_eq!(pure, "rc");
    let presets = vec![NeuronPreset { name: "p".to_string(), enabled: vec!["B".to_string()] }];
    let listed = full_system_prompt("", &ns, NeuronMode::Presets, Some("p"), &presets, &none, &none, &no_pins);
    assert_eq!(listed, build_tool_context(&ns[1..2]));
    let pins = vec![PinnedFile {
        path: "/w/a".to_string(),
        display: "a".to_string(),
        content: "x".to_string(),
        mtime: None,
        changed: false,
    }];
    let with_pins = full_system_prompt("rc", &[], NeuronMode::Manual, None, &[], &none, &none, &pins);
    assert_eq!(with_pins, format!("rc\n\n---\n\n{}", pinned_files_section(&pins)));
}

#[test]
fn smart_mode_lists_on_demand_neurons() {
    let ns = vec![neuron("A"), neuron("B")];
    let none: Vec<String> = Vec::new();
    let later = vec!["B".to_string()];
    let s = full_system_prompt("", &ns, NeuronMode::Smart, None, &[], &none, &later, &Vec::new());
    assert!(s.starts_with(&build_tool_context(&ns[0..1])));
    assert!(s.ends_with(
        "## On-demand neurons\nNot currently loaded. Request one with `<load_neuron>Name</load_neuron>` when you need it:\n- **B** — about B\n"
    ));
}

// ── attachments ───────────────────────────────────────────────────────────

#[test]
fn resolving_references() {
    assert_eq!(resolve_path("a.rs", "/w", "/h"), "/w/a.rs");
    assert_eq!(resolve_path("a.rs", "/w/", "/h"), "/w/a.rs");
    assert_eq!(resolve_path("/abs/b", "/w", "/h"), "/abs/b");
    assert_eq!(resolve_path("~/c", "/w", "/h"), "/h/c");
}

#[test]
fn references_are_collected_once() {
    let refs = attachment_refs("see @a.rs and @./a.rs then @b.rs @ @a.rs", "/w", "/h");
    assert_eq!(refs, vec!["a.rs".to_string(), "b.rs".to_string()]);
    assert!(attachment_refs("no refs here", "/w", "/h").is_empty());
}

#[test]
fn text_without_references() {
    let refs = vec!["a.rs".to_string()];
    assert_eq!(base_text("look at @a.rs please", &refs), "look at  please");
    assert_eq!(base_text("@a.rs", &refs), "");
    assert_eq!(base_text("plain", &Vec::new()), "plain");
}

#[test]
fn attachment_notes() {
    assert_eq!(not_found_note("x.rs"), "[File not found: x.rs]");
    assert_eq!(too_large_note("f", 400, None, 0), None);
    assert_eq!(too_large_note("f", 400, Some(8192), 0), None);
    assert_eq!(
        too_large_note("big.txt", 40_000, Some(8192), 100),
        Some("[big.txt is too large for the current context (~10000 tokens needed, 8092 remaining of 8k)]".to_string())
    );
    assert_eq!(
        too_large_note("f", 8, Some(10), 20),
        Some("[f is too large for the current context (~2 tokens needed, 0 remaining of 0k)]".to_string())
    );
    assert_eq!(
        file_content_block("src/a.rs", "rs", "fn a() {}\n\n"),
        "<file_content path=\"src/a.rs\">\n```rs\nfn a() {}\n```\n</file_content>"
    );
}

#[test]
fn path_completion_pieces() {
    assert_eq!(split_completion("src/ma", "/h"), ("src/".to_string(), "ma".to_string()));
    assert_eq!(split_completion("src/", "/h"), ("src/".to_string(), "".to_string()));
    assert_eq!(split_completion("ma", "/h"), ("".to_string(), "ma".to_string()));
    assert_eq!(split_completion("~/d", "/h"), ("/h/".to_string(), "d".to_string()));
    assert_eq!(completion_candidate("src/", "MA", "main.rs", false), Some("src/main.rs".to_string()));
    assert_eq!(completion_candidate("", "", "lib", true), Some("lib/".to_string()));
    assert_eq!(completion_candidate("", "", ".git", true), None);
    assert_eq!(completion_candidate("", ".g", ".git", true), Some(".git/".to_string()));
    assert_eq!(completion_candidate("", "x", "main.rs", false), None);
    let ordered = order_completions(vec!["b.rs".to_string(), "z/".to_string(), "a.rs".to_string(), "c/".to_string()]);
    assert_eq!(ordered, vec!["c/".to_string(), "z/".to_string(), "a.rs".to_string(), "b.rs".to_string()]);
}
