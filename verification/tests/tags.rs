use cognilite::tags::{
    extract_ask_tag, extract_load_neuron_tag, extract_mood_tag, extract_patch_tag,
    extract_preview_tag, extract_tag, extract_tool_call, is_in_code_block, strip_tag, AskKind,
};

#[test]
fn extract_tool_skips_inside_think() {
    let c = "<think>plan: <tool>ls</tool></think> ok no tool";
    assert_eq!(extract_tool_call(c), None);
}

#[test]
fn extract_tool_picks_up_after_think_close() {
    let c = "<think>plan</think>\nrunning <tool>ls</tool>";
    assert_eq!(extract_tool_call(c), Some("ls"));
}

#[test]
fn extract_tool_returns_none_when_think_open_unclosed() {
    let c = "<think>still reasoning <tool>ls</tool>";
    assert_eq!(extract_tool_call(c), None);
}

#[test]
fn extract_tool_skips_inside_code_fence() {
    let c = "use ```\n<tool>ls</tool>\n``` to list";
    assert_eq!(extract_tool_call(c), None);
}

#[test]
fn extract_tool_finds_outside_fences() {
    let c = "```\nignored\n```\nrun this: <tool>cat foo</tool>";
    assert_eq!(extract_tool_call(c), Some("cat foo"));
}

#[test]
fn extract_tag_generic_works() {
    assert_eq!(extract_tag("<mood>😊</mood>", "mood"), Some("😊"));
    assert_eq!(extract_tag("<load_neuron>Hippocampus</load_neuron>", "load_neuron"), Some("Hippocampus"));
}

#[test]
fn strip_tag_removes_pair() {
    let mut s = "before <mood>😊</mood> after".to_string();
    assert!(strip_tag(&mut s, "mood"));
    assert_eq!(s, "before after");
}

#[test]
fn strip_tag_returns_false_when_absent() {
    let mut s = "no tags here".to_string();
    assert!(!strip_tag(&mut s, "mood"));
    assert_eq!(s, "no tags here");
}

#[test]
fn extract_ask_text() {
    let (k, q) = extract_ask_tag("<ask>what?</ask>").unwrap();
    assert_eq!(q, "what?");
    assert!(matches!(k, AskKind::Text));
}

#[test]
fn extract_ask_confirm() {
    let (k, q) = extract_ask_tag(r#"<ask type="confirm">go?</ask>"#).unwrap();
    assert_eq!(q, "go?");
    assert!(matches!(k, AskKind::Confirm));
}

#[test]
fn extract_ask_choice() {
    let (k, _) = extract_ask_tag(r#"<ask type="choice">a | b | c</ask>"#).unwrap();
    match k {
        AskKind::Choice(opts) => assert_eq!(opts, vec!["a", "b", "c"]),
        _ => panic!("expected Choice"),
    }
}

#[test]
fn extract_preview_path() {
    assert_eq!(extract_preview_tag(r#"<preview path="src/foo.rs"/>"#), Some("src/foo.rs".to_string()));
}

#[test]
fn extract_mood_trims() {
    assert_eq!(extract_mood_tag("<mood>  😊  </mood>"), Some("😊".to_string()));
}

#[test]
fn code_block_counts_fences_before_position() {
    let t = "a ```b``` c ```d";
    assert!(!is_in_code_block(t, 0));
    assert!(is_in_code_block(t, 5));
    assert!(!is_in_code_block(t, 10));
    assert!(is_in_code_block(t, 15));
}

#[test]
fn code_block_positions_are_byte_offsets() {
    // the emoji takes four bytes: the fence spans bytes 5 to 7
    let t = "😊 ```x";
    assert!(!is_in_code_block(t, 4));
    assert!(!is_in_code_block(t, 6));
    assert!(is_in_code_block(t, 8));
    assert!(is_in_code_block(t, t.len()));
}

#[test]
fn extract_patch_returns_body() {
    assert_eq!(extract_patch_tag("x <patch>--- a\n+++ b</patch>"), Some("--- a\n+++ b".to_string()));
    assert_eq!(extract_patch_tag("<patch>unclosed"), None);
}

#[test]
fn extract_load_neuron_trims() {
    assert_eq!(extract_load_neuron_tag("<load_neuron> Shell </load_neuron>"), Some("Shell".to_string()));
}

#[test]
fn close_before_open_gives_none() {
    assert_eq!(extract_tag("</mood> x <mood>y", "mood"), None);
}

#[test]
fn strip_tag_at_start_keeps_rest() {
    let mut s = "<mood>x</mood> after".to_string();
    assert!(strip_tag(&mut s, "mood"));
    assert_eq!(s, " after");
}

#[test]
fn strip_tag_only_past_think() {
    let mut s = "<think><mood>a</mood></think>ok".to_string();
    assert!(!strip_tag(&mut s, "mood"));
    assert_eq!(s, "<think><mood>a</mood></think>ok");
}

#[test]
fn ask_choice_with_only_separators_is_none() {
    assert!(extract_ask_tag(r#"<ask type="choice"> | | </ask>"#).is_none());
}

#[test]
fn ask_inside_open_think_is_none() {
    assert!(extract_ask_tag("<think><ask>q</ask>").is_none());
}

#[test]
fn preview_without_path_is_none() {
    assert_eq!(extract_preview_tag("<preview />"), None);
}

#[test]
fn extract_tool_skips_inside_thought() {
    let c = "<thought>plan <tool>ls</tool></thought> done";
    assert_eq!(extract_tool_call(c), None);
}

#[test]
fn extract_tool_none_while_thought_open() {
    assert_eq!(extract_tool_call("<thought>still <tool>ls</tool>"), None);
}

#[test]
fn extract_tool_after_thought_close() {
    assert_eq!(extract_tool_call("<thought>plan</thought> run <tool>ls</tool>"), Some("ls"));
    assert_eq!(extract_tool_call("<think>a</think> <thought>b <tool>x</tool></thought> <tool>y</tool>"), Some("y"));
}

#[test]
fn strip_tag_skips_thought_block() {
    let mut s = String::from("<thought><mood>a</mood></thought> hi <mood>b</mood>");
    assert!(strip_tag(&mut s, "mood"));
    assert_eq!(s, "<thought><mood>a</mood></thought> hi");
}

#[test]
fn tag_in_a_block_opened_after_a_closed_one_is_ignored() {
    assert_eq!(extract_tag("<thought>a</thought><think>b <m>x</m>", "m"), None);
    assert_eq!(extract_tag("<think>a</think><thought>b <m>x</m>", "m"), None);
}

#[test]
fn tag_between_reasoning_blocks_is_found() {
    assert_eq!(extract_tag("<think>a</think><m>y</m><thought>b</thought><m>x</m>", "m"), Some("y"));
    assert_eq!(extract_tool_call("<think>a</think> <tool>ls</tool> <think>b</think>"), Some("ls"));
    assert_eq!(extract_tool_call("<think><tool>a</tool></think><thought><tool>b</tool></thought> <tool>c</tool>"), Some("c"));
}

#[test]
fn closing_tag_without_opening_ends_leading_reasoning() {
    assert_eq!(extract_tool_call("plan <tool>rm</tool></think> answer"), None);
    assert_eq!(extract_tool_call("plan</think> <tool>ls</tool>"), Some("ls"));
}

#[test]
fn ask_and_preview_skip_reasoning_blocks() {
    let (k, q) = extract_ask_tag("<think><ask>no</ask></think> <ask> yes? </ask>").unwrap();
    assert!(matches!(k, AskKind::Text));
    assert_eq!(q, "yes?");
    assert_eq!(extract_ask_tag("<thought>x</thought><think><ask>no</ask>"), None);
    assert_eq!(
        extract_preview_tag("<thought><preview path=\"a\"/></thought> <preview path=\"b.rs\"/>"),
        Some("b.rs".to_string())
    );
}

#[test]
fn strip_tag_keeps_tags_inside_blocks() {
    let mut s = "<think><mood>x</mood></think> hi <mood>y</mood> end".to_string();
    assert!(strip_tag(&mut s, "mood"));
    assert_eq!(s, "<think><mood>x</mood></think> hi end");
    let mut t = "<think><mood>x</mood>".to_string();
    assert!(!strip_tag(&mut t, "mood"));
}
