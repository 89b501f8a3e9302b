use cognilite::chat_keys::{
    chat_key, enter_history, history_nav_next, history_nav_prev, navigable_messages, shows_in_history, AskMode,
    ChatAction, ChatKeyContext, ChatUi, InputEdit, MessageShape,
};
use cognilite::config::{CtxStrategy, NeuronMode, NeuronPreset};
use cognilite::keys::{help_key, quits, Key, KeyCode};
use cognilite::message::Role;
use cognilite::scan::{find_neuron, scan_reply, ReplyEvent};
use cognilite::screen::{ChatFocus, Screen};
use cognilite::select::{ModelPicker, PickEffect};
use cognilite::settings::{cycle_mode, ConfigEffect, Settings, StoredSettings, USERNAME_ROW};
use cognilite::sysprompt::effective_enabled_neurons;
use cognilite::synapse::{parse_neuron, Neuron};
use cognilite::tags::AskKind;
use cognilite::turns::{answers_here, bare_username, display_username, model_identity};

fn k(code: KeyCode) -> Key {
    Key::plain(code)
}

fn ch(c: char) -> Key {
    Key::plain(KeyCode::Char(c))
}

fn names(v: &[&str]) -> Vec<String> {
    v.iter().map(|s| s.to_string()).collect()
}

fn settings() -> Settings {
    Settings::new(
        CtxStrategy::Dynamic,
        NeuronMode::Manual,
        Vec::new(),
        None,
        Vec::new(),
        Vec::new(),
        true,
        false,
        true,
        true,
        "ana".to_string(),
    )
}

// ── keys shared by every screen ───────────────────────────────────────────

#[test]
fn quitting_and_help() {
    assert!(quits(Key::ctrl(KeyCode::Char('c'))));
    assert!(!quits(ch('c')));
    let (mut show, mut scroll) = (false, 3u16);
    assert!(!help_key(&mut show, &mut scroll, ch('x')));
    assert!(help_key(&mut show, &mut scroll, k(KeyCode::F(1))));
    assert!(show);
    assert_eq!(scroll, 0);
    assert!(help_key(&mut show, &mut scroll, k(KeyCode::PageDown)));
    assert_eq!(scroll, 10);
    assert!(help_key(&mut show, &mut scroll, ch('k')));
    assert_eq!(scroll, 9);
    assert!(help_key(&mut show, &mut scroll, ch('z')));
    assert!(help_key(&mut show, &mut scroll, k(KeyCode::Esc)));
    assert!(!show);
    scroll = u16::MAX;
    show = true;
    help_key(&mut show, &mut scroll, k(KeyCode::Down));
    assert_eq!(scroll, u16::MAX);
}

// ── the settings screen ───────────────────────────────────────────────────

#[test]
fn settings_sections_and_strategy() {
    let mut s = settings();
    let none: Vec<String> = Vec::new();
    assert_eq!(s.handle_key(k(KeyCode::Esc), &none), ConfigEffect::Leave);
    assert_eq!(s.handle_key(k(KeyCode::Down), &none), ConfigEffect::Nothing);
    assert_eq!(s.config_cursor, 1);
    assert_eq!(s.handle_key(k(KeyCode::Enter), &none), ConfigEffect::Flush);
    assert_eq!(s.ctx_strategy, CtxStrategy::Full);
    assert!(s.config_dirty);
    s.handle_key(ch('d'), &none);
    s.handle_key(ch('y'), &none);
    assert_eq!(s.config_search, "dy");
    assert_eq!(s.config_cursor, 0);
    s.handle_key(k(KeyCode::Backspace), &none);
    assert_eq!(s.config_search, "d");
    for expected in [1usize, 2, 3, 4, 0] {
        s.handle_key(k(KeyCode::Tab), &none);
        assert_eq!(s.config_section, expected);
        assert_eq!(s.config_search, "");
    }
}

#[test]
fn settings_neurons_and_modes() {
    let mut s = settings();
    let ns = names(&["Shell", "Knowledge"]);
    s.handle_key(k(KeyCode::Tab), &ns);
    assert_eq!(s.handle_key(k(KeyCode::Down), &ns), ConfigEffect::Nothing);
    assert_eq!(s.neuron_cursor, 1);
    assert_eq!(s.handle_key(ch(' '), &ns), ConfigEffect::Warmup);
    assert_eq!(s.disabled_neurons, vec!["Knowledge".to_string()]);
    s.handle_key(k(KeyCode::Enter), &ns);
    assert!(s.disabled_neurons.is_empty());
    assert_eq!(s.handle_key(k(KeyCode::Right), &ns), ConfigEffect::Warmup);
    assert_eq!(s.neuron_sub_section, 1);
    assert_eq!(s.neuron_mode, NeuronMode::Smart);
    s.handle_key(k(KeyCode::Right), &ns);
    assert_eq!(s.neuron_sub_section, 2);
    assert_eq!(s.neuron_mode, NeuronMode::Presets);
    s.handle_key(k(KeyCode::Right), &ns);
    assert_eq!(s.neuron_sub_section, 2);
    assert_eq!(s.handle_key(k(KeyCode::Enter), &ns), ConfigEffect::Warmup);
    assert_eq!(s.active_preset.as_deref(), Some("__pure__"));
    s.handle_key(k(KeyCode::Enter), &ns);
    assert_eq!(s.active_preset, None);
    s.handle_key(k(KeyCode::Left), &ns);
    s.handle_key(k(KeyCode::Left), &ns);
    assert_eq!(s.neuron_sub_section, 0);
    assert_eq!(s.neuron_mode, NeuronMode::Manual);
}

#[test]
fn settings_presets() {
    let mut s = settings();
    let ns = names(&["Shell", "Knowledge"]);
    s.disabled_neurons = vec!["Shell".to_string()];
    s.config_section = 1;
    s.neuron_sub_section = 2;
    s.handle_key(ch('n'), &ns);
    assert_eq!(s.preset_name_input.as_deref(), Some(""));
    for c in " p1 ".chars() {
        s.handle_key(ch(c), &ns);
    }
    s.handle_key(k(KeyCode::Backspace), &ns);
    s.handle_key(k(KeyCode::Enter), &ns);
    assert_eq!(s.preset_name_input, None);
    assert_eq!(s.neuron_presets.len(), 1);
    assert_eq!(s.neuron_presets[0].name, "p1");
    assert_eq!(s.neuron_presets[0].enabled, vec!["Knowledge".to_string()]);
    s.save_current_as_preset("p1", &ns);
    assert_eq!(s.neuron_presets.len(), 1);
    s.handle_key(k(KeyCode::Down), &ns);
    assert_eq!(s.preset_cursor, 1);
    assert_eq!(s.handle_key(k(KeyCode::Enter), &ns), ConfigEffect::Warmup);
    assert_eq!(s.active_preset.as_deref(), Some("p1"));
    s.handle_key(k(KeyCode::Down), &ns);
    s.handle_key(k(KeyCode::Down), &ns);
    assert_eq!(s.preset_cursor, 2);
    s.handle_key(k(KeyCode::Up), &ns);
    s.handle_key(ch('d'), &ns);
    assert!(s.neuron_presets.is_empty());
    assert_eq!(s.active_preset, None);
    assert_eq!(s.preset_cursor, 0);
}

#[test]
fn settings_parameters_switches_and_username() {
    let mut s = settings();
    let none: Vec<String> = Vec::new();
    s.config_section = 2;
    assert_eq!(s.handle_key(k(KeyCode::Left), &none), ConfigEffect::ParamStep(false));
    assert_eq!(s.handle_key(ch('+'), &none), ConfigEffect::ParamStep(true));
    assert_eq!(s.handle_key(ch('r'), &none), ConfigEffect::ParamReset);
    assert_eq!(s.handle_key(k(KeyCode::Backspace), &none), ConfigEffect::ParamReset);
    s.handle_key(ch('t'), &none);
    s.handle_key(ch('o'), &none);
    assert_eq!(s.param_cursor, 1);
    s.config_section = 3;
    s.config_search.clear();
    s.handle_key(k(KeyCode::Enter), &none);
    assert!(!s.ctx_pow2);
    s.handle_key(k(KeyCode::Down), &none);
    s.handle_key(ch(' '), &none);
    assert!(s.keep_alive);
    s.config_section = 4;
    s.handle_key(k(KeyCode::Enter), &none);
    assert!(!s.thinking);
    s.handle_key(k(KeyCode::Down), &none);
    assert_eq!(s.features_cursor, USERNAME_ROW);
    s.handle_key(k(KeyCode::Enter), &none);
    assert!(s.username_editing);
    s.handle_key(k(KeyCode::Backspace), &none);
    s.handle_key(ch('y'), &none);
    assert_eq!(s.handle_key(k(KeyCode::Enter), &none), ConfigEffect::Flush);
    assert_eq!(s.username, "any");
    assert!(!s.username_editing);
    s.set_username("   ");
    assert_eq!(s.username, "any");
    s.set_username("  bo ");
    assert_eq!(s.username, "bo");
}

#[test]
fn smart_cycle_and_modes_come_back() {
    let mut s = settings();
    let ns = names(&["Shell"]);
    for _ in 0..3 {
        assert!(s.cycle_neuron_smart_state(&ns));
    }
    assert!(s.disabled_neurons.is_empty() && s.on_demand_neurons.is_empty());
    s.cycle_neuron_smart_state(&ns);
    assert_eq!(s.on_demand_neurons, ns);
    s.cycle_neuron_smart_state(&ns);
    assert_eq!(s.disabled_neurons, ns);
    assert!(s.on_demand_neurons.is_empty());
    s.neuron_cursor = 5;
    assert!(!s.cycle_neuron_smart_state(&ns));
    let (mut plan, mut auto) = (false, false);
    assert_eq!(cycle_mode(&mut plan, &mut auto), "plan mode");
    assert_eq!(cycle_mode(&mut plan, &mut auto), "auto-accept");
    assert!(!plan && auto);
    assert_eq!(cycle_mode(&mut plan, &mut auto), "normal");
    assert!(!plan && !auto);
}

#[test]
fn settings_screen_toggle() {
    let mut s = settings();
    s.ctx_strategy = CtxStrategy::Full;
    s.config_section = 3;
    assert_eq!(s.toggle_config(Screen::ModelSelect), Screen::Config);
    assert_eq!(s.config_cursor, 1);
    assert_eq!(s.config_section, 0);
    assert_eq!(s.toggle_config(Screen::Config), Screen::ModelSelect);
    assert_eq!(s.toggle_config(Screen::RemoteConnect), Screen::Chat);
}

// ── the model list and the remote-connect screen ─────────────────────────

fn picker(url: &str) -> ModelPicker {
    ModelPicker {
        model_cursor: 0,
        model_search: String::new(),
        join_room_input: None,
        remote_url: url.to_string(),
        remote_url_cursor: url.chars().count(),
        remote_connecting: false,
        remote_connect_error: Some("old".to_string()),
    }
}

#[test]
fn model_list_keys() {
    let mut p = picker("");
    let ms = names(&["llama3:8b", "qwen3:4b", "qwen2:7b"]);
    assert_eq!(p.model_key(ch('q'), &ms, false), PickEffect::Nothing);
    assert_eq!(p.model_cursor, 1);
    p.model_key(k(KeyCode::Down), &ms, false);
    assert_eq!(p.model_cursor, 2);
    p.model_key(k(KeyCode::Down), &ms, false);
    assert_eq!(p.model_cursor, 2);
    assert_eq!(p.model_key(k(KeyCode::Enter), &ms, false), PickEffect::SelectLocal);
    assert_eq!(p.model_key(k(KeyCode::Enter), &ms, true), PickEffect::SelectRemote);
    assert_eq!(p.model_key(k(KeyCode::Esc), &ms, false), PickEffect::Nothing);
    assert_eq!(p.model_search, "");
    assert_eq!(p.model_cursor, 2);
    assert_eq!(p.model_key(k(KeyCode::Esc), &ms, true), PickEffect::SwitchToLocal);
    assert_eq!(p.model_key(k(KeyCode::Tab), &ms, false), PickEffect::ToggleConfig);
    assert_eq!(p.model_key(Key::ctrl(KeyCode::Char('r')), &ms, false), PickEffect::OpenRemoteScreen);
    assert_eq!(p.remote_connect_error, None);
    assert_eq!(p.model_key(k(KeyCode::Down), &[], false), PickEffect::Nothing);
}

#[test]
fn joining_a_room() {
    let mut p = picker("ws://h:9//");
    let ms: Vec<String> = Vec::new();
    p.model_key(Key::ctrl(KeyCode::Char('j')), &ms, false);
    assert_eq!(p.join_room_input.as_deref(), Some(""));
    for c in " r1 ".chars() {
        p.model_key(ch(c), &ms, false);
    }
    assert_eq!(p.model_key(k(KeyCode::Enter), &ms, false), PickEffect::StartRemoteConnect);
    assert_eq!(p.remote_url, "ws://h:9/id/r1");
    assert_eq!(p.join_room_input, None);
    let mut q = picker("");
    q.model_key(Key::ctrl(KeyCode::Char('j')), &ms, false);
    q.model_key(ch('x'), &ms, false);
    assert_eq!(q.model_key(k(KeyCode::Enter), &ms, false), PickEffect::Nothing);
    assert_eq!(q.remote_url, "");
}

#[test]
fn editing_the_server_url() {
    let mut p = picker("");
    for c in "ws://a b".chars() {
        p.remote_key(ch(c));
    }
    assert_eq!(p.remote_url, "ws://a b");
    p.remote_key(Key::ctrl(KeyCode::Left));
    assert_eq!(p.remote_url_cursor, 7);
    p.remote_key(k(KeyCode::Backspace));
    assert_eq!(p.remote_url, "ws://ab");
    p.remote_key(k(KeyCode::Home));
    p.remote_key(k(KeyCode::Delete));
    assert_eq!(p.remote_url, "s://ab");
    p.remote_key(Key::ctrl(KeyCode::Right));
    assert_eq!(p.remote_url_cursor, 6);
    p.remote_key(k(KeyCode::Home));
    p.remote_key(ch('w'));
    assert_eq!(p.remote_key(k(KeyCode::Enter)), PickEffect::StartRemoteConnect);
    let mut q = picker(" http://h:11434 ");
    assert_eq!(q.remote_key(k(KeyCode::Enter)), PickEffect::StartRemoteOllama);
    assert_eq!(q.remote_connect_error, None);
    assert_eq!(q.remote_key(k(KeyCode::Esc)), PickEffect::BackToModels);
    let mut r = picker("   ");
    assert_eq!(r.remote_key(k(KeyCode::Enter)), PickEffect::Nothing);
    r.remote_connecting = true;
    assert_eq!(r.remote_key(ch('x')), PickEffect::Nothing);
    assert_eq!(r.remote_url, "   ");
}

// ── the chat screen ───────────────────────────────────────────────────────

fn ctx() -> ChatKeyContext {
    ChatKeyContext {
        picker_open: false,
        picker_has_query: false,
        ask: AskMode::NoAsk,
        completion_open: false,
        file_panel_shown: false,
        streaming: false,
        remote: false,
        has_room: true,
        multiline: false,
        browsing_history: false,
        has_history: false,
    }
}

fn ui() -> ChatUi {
    ChatUi { focus: ChatFocus::Input, scroll: 5, auto_scroll: true, ask_cursor: 0, show_room_share: false }
}

#[test]
fn chat_input_keys() {
    let mut u = ui();
    assert_eq!(chat_key(&mut u, ctx(), k(KeyCode::Enter)), ChatAction::Send);
    assert_eq!(chat_key(&mut u, ctx(), ch('x')), ChatAction::Edit(InputEdit::Insert('x'), true));
    assert_eq!(chat_key(&mut u, ctx(), Key::ctrl(KeyCode::Char('x'))), ChatAction::Edit(InputEdit::Insert('x'), true));
    assert_eq!(chat_key(&mut u, ctx(), Key::ctrl(KeyCode::Char('w'))), ChatAction::Edit(InputEdit::DeleteWordBefore, true));
    assert_eq!(chat_key(&mut u, ctx(), Key::ctrl(KeyCode::Char('l'))), ChatAction::ClearChat);
    assert_eq!(chat_key(&mut u, ctx(), k(KeyCode::Up)), ChatAction::Nothing);
    assert_eq!(u.scroll, 4);
    assert!(!u.auto_scroll);
    assert_eq!(chat_key(&mut u, ctx(), Key::ctrl(KeyCode::End)), ChatAction::Nothing);
    assert!(u.auto_scroll);
    let mut c = ctx();
    c.has_history = true;
    assert_eq!(chat_key(&mut u, c, k(KeyCode::Up)), ChatAction::Edit(InputEdit::HistoryPrev, false));
    c.multiline = true;
    assert_eq!(chat_key(&mut u, c, k(KeyCode::Up)), ChatAction::Edit(InputEdit::Up, true));
    assert_eq!(chat_key(&mut u, ctx(), k(KeyCode::Esc)), ChatAction::LeaveChat);
    c.streaming = true;
    assert_eq!(chat_key(&mut u, c, k(KeyCode::Esc)), ChatAction::StopStream);
    assert_eq!(chat_key(&mut u, ctx(), Key::ctrl(KeyCode::Char('j'))), ChatAction::Nothing);
    assert!(u.show_room_share);
    assert_eq!(chat_key(&mut u, ctx(), ch('y')), ChatAction::CopyRoomUrl);
    assert!(!u.show_room_share);
    assert_eq!(chat_key(&mut u, ctx(), k(KeyCode::Tab)), ChatAction::EnterHistory);
}

#[test]
fn chat_popups_take_keys_first() {
    let mut u = ui();
    let mut c = ctx();
    c.ask = AskMode::Confirm;
    assert_eq!(chat_key(&mut u, c, ch('Y')), ChatAction::AnswerConfirm(true));
    assert_eq!(chat_key(&mut u, c, k(KeyCode::Esc)), ChatAction::AnswerConfirm(false));
    assert_eq!(chat_key(&mut u, c, k(KeyCode::Tab)), ChatAction::Nothing);
    c.ask = AskMode::Choice(2);
    chat_key(&mut u, c, k(KeyCode::Down));
    chat_key(&mut u, c, k(KeyCode::Down));
    assert_eq!(u.ask_cursor, 1);
    assert_eq!(chat_key(&mut u, c, k(KeyCode::Enter)), ChatAction::AnswerChoice);
    c.ask = AskMode::Text;
    assert_eq!(chat_key(&mut u, c, ch('a')), ChatAction::Edit(InputEdit::Insert('a'), false));
    c.picker_open = true;
    assert_eq!(chat_key(&mut u, c, k(KeyCode::Backspace)), ChatAction::PickerGoUp);
    c.picker_has_query = true;
    assert_eq!(chat_key(&mut u, c, k(KeyCode::Backspace)), ChatAction::PickerPopQuery);
    let mut d = ctx();
    d.completion_open = true;
    assert_eq!(chat_key(&mut u, d, k(KeyCode::Tab)), ChatAction::CompleteAccept);
    assert_eq!(chat_key(&mut u, d, ch('a')), ChatAction::Edit(InputEdit::Insert('a'), true));
    assert_eq!(chat_key(&mut u, ctx(), Key::ctrl(KeyCode::Char('b'))), ChatAction::ToggleFilePanel);
}

#[test]
fn chat_history_and_panel_focus() {
    let mut u = ui();
    u.focus = ChatFocus::History;
    let mut c = ctx();
    assert_eq!(chat_key(&mut u, c, k(KeyCode::Up)), ChatAction::HistoryPrev);
    assert_eq!(chat_key(&mut u, c, Key::ctrl(KeyCode::Char('y'))), ChatAction::CopyBlock);
    assert_eq!(chat_key(&mut u, c, k(KeyCode::PageUp)), ChatAction::Nothing);
    assert_eq!(u.scroll, 0);
    c.file_panel_shown = true;
    chat_key(&mut u, c, k(KeyCode::Tab));
    assert_eq!(u.focus, ChatFocus::FilePanel);
    assert_eq!(chat_key(&mut u, c, ch('q')), ChatAction::CloseFilePanel);
    chat_key(&mut u, c, k(KeyCode::Tab));
    assert_eq!(u.focus, ChatFocus::Input);
    assert!(u.auto_scroll);
}

#[test]
fn history_navigation_skips_empty_replies() {
    let m = |role: Role, content_empty: bool, thinking_empty: bool| MessageShape { role, content_empty, thinking_empty };
    let ms = vec![
        m(Role::User, false, true),
        m(Role::Assistant, true, true),
        m(Role::Assistant, true, false),
        m(Role::Tool, true, true),
    ];
    assert!(!shows_in_history(ms[1]));
    assert_eq!(navigable_messages(&ms), vec![0, 2, 3]);
    assert_eq!(enter_history(&ms), Some(3));
    assert_eq!(enter_history(&ms[1..2]), None);
    let mut cur = 3usize;
    history_nav_prev(&mut cur, &ms);
    assert_eq!(cur, 2);
    history_nav_prev(&mut cur, &ms);
    assert_eq!(cur, 0);
    history_nav_prev(&mut cur, &ms);
    assert_eq!(cur, 0);
    history_nav_next(&mut cur, &ms);
    assert_eq!(cur, 2);
    let mut off = 1usize;
    history_nav_next(&mut off, &ms);
    assert_eq!(off, 1);
}

// ── reading a streamed reply ──────────────────────────────────────────────

fn shell() -> Neuron {
    parse_neuron("name = Shell\ndescription = d", &["rules"], &[])
}

#[test]
fn reply_tool_call() {
    let r = scan_reply("let me look <tool>ls -la</tool> more", "let me look <tool>ls -la</tool> more", "", &[], &[]);
    assert_eq!(r.content, "let me look");
    assert_eq!(r.llm, "let me look <tool>ls -la</tool>");
    assert!(matches!(r.event, ReplyEvent::ToolCall(ref c) if c == "ls -la"));
}

#[test]
fn reply_question_and_patch() {
    let r = scan_reply("ok  <ask type=\"confirm\">go?</ask>", "x", "", &[], &[]);
    assert_eq!(r.content, "ok");
    assert!(matches!(r.event, ReplyEvent::Ask(AskKind::Confirm, ref q) if q == "go?"));
    let p = scan_reply("fix:\n<patch>\n-a\n+b\n</patch> done", "x", "", &[], &[]);
    assert_eq!(p.content, "fix:\n```diff\n-a\n+b\n``` done");
    assert!(matches!(p.event, ReplyEvent::Patch(ref d) if d == "\n-a\n+b\n"));
}

#[test]
fn reply_mood_preview_and_neuron() {
    let r = scan_reply("hi <mood>🙂</mood> there", "hi", "", &[], &[]);
    assert_eq!(r.content, "hi there");
    assert_eq!(r.mood.as_deref(), Some("🙂"));
    assert!(matches!(r.event, ReplyEvent::Continue));
    let t = scan_reply("hi", "hi", "hmm <mood>😐</mood>", &[], &[]);
    assert_eq!(t.thinking, "hmm");
    assert_eq!(t.mood.as_deref(), Some("😐"));
    let v = scan_reply("see <preview path=\"a.rs\"/> now", "x", "", &[], &[]);
    assert_eq!(v.content, "see now");
    assert_eq!(v.preview.as_deref(), Some("a.rs"));
    let ns = vec!["Shell".to_string(), "Knowledge".to_string()];
    let l = scan_reply("need <load_neuron>knowledge</load_neuron>", "x", "", &[], &ns);
    assert!(matches!(l.event, ReplyEvent::LoadNeuron(1)));
    assert_eq!(l.content, "need");
    let done = vec!["knowledge".to_string()];
    let again = scan_reply("need <load_neuron>knowledge</load_neuron>", "x", "", &done, &ns);
    assert!(matches!(again.event, ReplyEvent::Continue));
    assert_eq!(find_neuron(&ns, "SHELL"), Some(0));
    assert_eq!(find_neuron(&ns, "x"), None);
    let _ = shell();
}

// ── identities and neuron selection ───────────────────────────────────────

#[test]
fn identities_and_addressing() {
    assert_eq!(display_username("ana", "a1b2c3"), "ana#a1b2c3");
    assert_eq!(model_identity(Some("qwen3:4b"), "ff00ff"), Some("qwen3#ff00ff".to_string()));
    assert_eq!(model_identity(Some(""), "x"), None);
    assert_eq!(model_identity(None, "x"), None);
    assert_eq!(bare_username("ana#a1#b2"), "ana#a1");
    assert_eq!(bare_username("ana"), "ana");
    assert!(answers_here("hello", "ana#1", Some("qwen3:4b")));
    assert!(answers_here("#qwen3 hi", "ana#1", Some("qwen3:4b")));
    assert!(answers_here("#all hi", "ana#1", None));
    assert!(!answers_here("#bob#2 hi", "ana#1", Some("qwen3:4b")));
}

#[test]
fn enabled_neuron_positions() {
    let ns = vec![shell(), parse_neuron("name = K", &[], &[])];
    let none: Vec<String> = Vec::new();
    assert_eq!(effective_enabled_neurons(&ns, NeuronMode::Manual, None, &[], &none), vec![0, 1]);
    assert_eq!(effective_enabled_neurons(&ns, NeuronMode::Manual, None, &[], &names(&["Shell"])), vec![1]);
    assert_eq!(effective_enabled_neurons(&ns, NeuronMode::Presets, Some("__pure__"), &[], &none), Vec::<usize>::new());
    let ps = vec![NeuronPreset { name: "p".to_string(), enabled: names(&["K"]) }];
    assert_eq!(effective_enabled_neurons(&ns, NeuronMode::Presets, Some("p"), &ps, &none), vec![1]);
    assert_eq!(effective_enabled_neurons(&ns, NeuronMode::Smart, Some("p"), &ps, &none), vec![0, 1]);
}

#[test]
fn session_options_over_settings() {
    let mut s = settings();
    s.disabled_neurons = names(&["A"]);
    s.apply_session(Some(NeuronMode::Smart), None, &names(&["B", "A"]));
    assert!(s.neuron_mode == NeuronMode::Smart);
    assert_eq!(s.disabled_neurons, names(&["A", "B"]));
    s.apply_session(Some(NeuronMode::Manual), Some("work".to_string()), &Vec::new());
    assert!(s.neuron_mode == NeuronMode::Presets);
    assert_eq!(s.active_preset.as_deref(), Some("work"));
}

#[test]
fn stored_settings_fill_in_defaults() {
    let empty = StoredSettings {
        ctx_strategy: None,
        disabled_neurons: vec![],
        on_demand_neurons: vec![],
        ctx_pow2: None,
        keep_alive: None,
        warmup: None,
        thinking: None,
        neuron_mode: None,
        neuron_presets: vec![],
        active_preset: None,
        username: Some(String::new()),
    };
    let s = Settings::from_stored(empty, "ana".to_string());
    assert_eq!(s.ctx_strategy, CtxStrategy::Dynamic);
    assert_eq!(s.neuron_mode, NeuronMode::Manual);
    assert!(s.ctx_pow2 && !s.keep_alive && s.warmup && s.thinking);
    assert_eq!(s.username, "ana");
    let full = StoredSettings {
        ctx_strategy: Some("full".to_string()),
        disabled_neurons: names(&["A", "B", "A"]),
        on_demand_neurons: names(&["C", "C"]),
        ctx_pow2: Some(false),
        keep_alive: Some(true),
        warmup: Some(false),
        thinking: Some(false),
        neuron_mode: Some("smart".to_string()),
        neuron_presets: vec![],
        active_preset: Some("p".to_string()),
        username: Some("bo".to_string()),
    };
    let s = Settings::from_stored(full, "ana".to_string());
    assert_eq!(s.ctx_strategy, CtxStrategy::Full);
    assert_eq!(s.neuron_mode, NeuronMode::Smart);
    assert_eq!(s.disabled_neurons, names(&["A", "B"]));
    assert_eq!(s.on_demand_neurons, names(&["C"]));
    assert!(!s.ctx_pow2 && s.keep_alive && !s.warmup && !s.thinking);
    assert_eq!(s.active_preset, Some("p".to_string()));
    assert_eq!(s.username, "bo");
}
