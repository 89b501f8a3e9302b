use cognilite::nav::{char_to_byte, nav_next, nav_prev, snap_cursor, word_left, word_right};
use cognilite::render::{
    classify_diff_line, clean_at_refs, clip_code_line, count_heading, detect_list_item,
    display_name, input_visual_cursor, is_diff_block, parse_content_segments, strip_think_blocks,
    visual_line_count, wrap_text, ContentSegment, DiffLine,
};
use cognilite::spans::{highlight_at_refs, inline_md, SpanStyle, StyledSpan};
use cognilite::stream::{checked_print_boundary, safe_print_boundary};

fn runs(v: &[StyledSpan]) -> Vec<(String, SpanStyle)> {
    v.iter().map(|s| (s.text.clone(), s.style)).collect()
}

// ── list navigation ───────────────────────────────────────────────────────

#[test]
fn nav_moves_within_filtered_list() {
    let f = [2usize, 5, 9];
    let mut c = 5;
    nav_prev(&mut c, &f);
    assert_eq!(c, 2);
    nav_prev(&mut c, &f);
    assert_eq!(c, 2);
    nav_next(&mut c, &f);
    nav_next(&mut c, &f);
    assert_eq!(c, 9);
    nav_next(&mut c, &f);
    assert_eq!(c, 9);
}

#[test]
fn nav_from_outside_the_list() {
    let f = [2usize, 5, 9];
    let mut c = 7;
    nav_prev(&mut c, &f);
    assert_eq!(c, 9);
    let mut c = 7;
    nav_next(&mut c, &f);
    assert_eq!(c, 2);
    let mut c = 7;
    nav_next(&mut c, &[]);
    assert_eq!(c, 7);
}

#[test]
fn next_then_prev_returns() {
    let f = [4usize, 1, 8];
    let mut c = 1;
    nav_next(&mut c, &f);
    nav_prev(&mut c, &f);
    assert_eq!(c, 1);
}

#[test]
fn snapping_the_cursor() {
    let mut c = 3;
    snap_cursor(&mut c, &[1, 3]);
    assert_eq!(c, 3);
    snap_cursor(&mut c, &[6, 7]);
    assert_eq!(c, 6);
    snap_cursor(&mut c, &[]);
    assert_eq!(c, 0);
}

#[test]
fn word_motion() {
    let s = "foo bar  baz";
    assert_eq!(word_left(s, 7), 4);
    assert_eq!(word_left(s, 4), 0);
    assert_eq!(word_left(s, 0), 0);
    assert_eq!(word_right(s, 0), 4);
    assert_eq!(word_right(s, 4), 9);
    assert_eq!(word_right(s, 9), 12);
    assert_eq!(word_right(s, 20), 20);
}

#[test]
fn char_indices_to_bytes() {
    let s = "añb€c";
    assert_eq!(char_to_byte(s, 0), 0);
    assert_eq!(char_to_byte(s, 2), 3);
    assert_eq!(char_to_byte(s, 4), 7);
    assert_eq!(char_to_byte(s, 99), s.len());
}

// ── labels and the input box ──────────────────────────────────────────────

#[test]
fn completion_labels() {
    assert_eq!(display_name("src/app.rs"), "app.rs");
    assert_eq!(display_name("src/runtime/"), "runtime/");
    assert_eq!(display_name("README.md"), "README.md");
    assert_eq!(display_name("docs//"), "docs/");
}

#[test]
fn visual_cursor_wraps() {
    assert_eq!(input_visual_cursor("abcdef", 5, 4), (1, 1));
    assert_eq!(input_visual_cursor("ab\n\ncd", 6, 10), (2, 2));
    assert_eq!(input_visual_cursor("abcd", 4, 4), (1, 0));
    assert_eq!(input_visual_cursor("abc", 99, 0), (0, 0));
}

#[test]
fn visual_rows() {
    assert_eq!(visual_line_count("", 10), 1);
    assert_eq!(visual_line_count("abcdefghij\nx", 4), 4);
    assert_eq!(visual_line_count("a\n\nb", 4), 3);
    assert_eq!(visual_line_count("abc", 0), 1);
}

#[test]
fn headings_and_list_items() {
    assert_eq!(count_heading("## Title"), (2, "Title"));
    assert_eq!(count_heading("#### deep"), (0, "#### deep"));
    assert_eq!(count_heading("#nospace"), (0, "#nospace"));
    assert_eq!(detect_list_item("- item"), (Some("  • ".to_string()), "item"));
    assert_eq!(detect_list_item("  * sub"), (Some("    ◦ ".to_string()), "sub"));
    assert_eq!(detect_list_item("12. step"), (Some("  12. ".to_string()), "step"));
    assert_eq!(detect_list_item("12.step"), (None, "12.step"));
    assert_eq!(detect_list_item("plain"), (None, "plain"));
}

#[test]
fn word_wrapping() {
    assert_eq!(wrap_text("the quick brown fox", 10), vec!["the quick", "brown fox"]);
    assert_eq!(wrap_text("a\n\nb", 5), vec!["a", "", "b"]);
    assert_eq!(wrap_text("", 5), vec![""]);
    assert_eq!(wrap_text("x y", 0), vec!["x y"]);
    assert_eq!(wrap_text("supercalifragilistic word", 5), vec!["supercalifragilistic", "word"]);
}

// ── message content ───────────────────────────────────────────────────────

#[test]
fn think_blocks_are_hidden() {
    assert_eq!(strip_think_blocks("<think>plan</think>\n\nanswer"), "answer");
    assert_eq!(strip_think_blocks("a<thought>x</thought>b<think>y</think>c"), "abc");
    assert_eq!(strip_think_blocks("shown<think>still going"), "shown");
    assert_eq!(strip_think_blocks("no blocks"), "no blocks");
}

#[test]
fn code_segments() {
    let segs = parse_content_segments("intro\n```rust\nfn main() {}\n```\nafter");
    assert_eq!(segs.len(), 3);
    assert!(matches!(&segs[0], ContentSegment::Text(t) if t == "intro\n"));
    assert!(matches!(&segs[1], ContentSegment::Code { lang, content } if lang == "rust" && content == "fn main() {}\n"));
    assert!(matches!(&segs[2], ContentSegment::Text(t) if t == "after"));
    let open = parse_content_segments("```py\nprint(1)");
    assert_eq!(open.len(), 1);
    assert!(matches!(&open[0], ContentSegment::Code { lang, content } if lang == "py" && content == "print(1)"));
    assert!(parse_content_segments("").is_empty());
}

#[test]
fn at_references_are_shortened() {
    assert_eq!(clean_at_refs("see @src/app/main.rs now"), "see @main.rs now");
    assert_eq!(clean_at_refs("@ alone and @x"), "@ alone and @x");
    assert_eq!(clean_at_refs("dir @src/"), "dir @src");
}

#[test]
fn at_references_are_highlighted() {
    let r = runs(&highlight_at_refs("open @a.rs then"));
    assert_eq!(
        r,
        vec![
            ("open ".to_string(), SpanStyle::Plain),
            ("@a.rs ".to_string(), SpanStyle::Accent),
            ("then".to_string(), SpanStyle::Plain),
        ]
    );
    assert_eq!(runs(&highlight_at_refs("")), vec![(String::new(), SpanStyle::Raw)]);
}

#[test]
fn inline_markdown_runs() {
    let r = runs(&inline_md("a **b** *c* `d` _e_"));
    assert_eq!(
        r,
        vec![
            ("a ".to_string(), SpanStyle::Plain),
            ("b".to_string(), SpanStyle::Bold),
            (" ".to_string(), SpanStyle::Plain),
            ("c".to_string(), SpanStyle::Italic),
            (" ".to_string(), SpanStyle::Plain),
            ("d".to_string(), SpanStyle::Code),
            (" ".to_string(), SpanStyle::Plain),
            ("e".to_string(), SpanStyle::Italic),
        ]
    );
    assert_eq!(runs(&inline_md("")), vec![(String::new(), SpanStyle::Raw)]);
    assert_eq!(runs(&inline_md("2 * 3")), vec![("2 * 3".to_string(), SpanStyle::Plain)]);
}

#[test]
fn inline_markdown_mentions() {
    let r = runs(&inline_md("hi #Alice#a1 and # x"));
    let c = cognilite::chat::username_color("alice");
    assert_eq!(
        r,
        vec![
            ("hi ".to_string(), SpanStyle::Plain),
            ("#Alice#a1".to_string(), SpanStyle::Mention(c)),
            (" and # x".to_string(), SpanStyle::Plain),
        ]
    );
}

#[test]
fn diff_lines() {
    assert_eq!(classify_diff_line("+added"), DiffLine::Added);
    assert_eq!(classify_diff_line("+++ b/x"), DiffLine::FileHeader);
    assert_eq!(classify_diff_line("-gone"), DiffLine::Removed);
    assert_eq!(classify_diff_line("@@ -1 +1 @@"), DiffLine::Hunk);
    assert_eq!(classify_diff_line(" same"), DiffLine::Context);
    assert!(is_diff_block("diff", ""));
    assert!(is_diff_block("", "@@ x\n+a\n-b"));
    assert!(!is_diff_block("rust", "+a\n-b"));
    assert_eq!(clip_code_line("abcdefgh", 7), "abc");
    assert_eq!(clip_code_line("abc", 2), "");
}

// ── streaming ─────────────────────────────────────────────────────────────

#[test]
fn print_boundary_stops_before_tags() {
    assert_eq!(safe_print_boundary("hello world", 0), 11);
    assert_eq!(safe_print_boundary("run <tool>ls</tool>", 0), 4);
    assert_eq!(safe_print_boundary("a <t", 0), 2);
    assert_eq!(safe_print_boundary("a < b", 0), 5);
    assert_eq!(safe_print_boundary("<think>x</think>ok <mood>", 0), 19);
    assert_eq!(safe_print_boundary("<think>open", 0), 0);
    assert_eq!(safe_print_boundary("x <b>y</b>", 0), 10);
    assert_eq!(safe_print_boundary("abc", 2), 3);
}

#[test]
fn print_boundary_counts_bytes() {
    assert_eq!(safe_print_boundary("é<tool>", 0), 2);
    assert_eq!(safe_print_boundary("😊 ok <mood>", 4), 8);
    assert_eq!(checked_print_boundary("é<tool>", 2), Some(2));
    assert_eq!(checked_print_boundary("é<tool>", 1), None);
    assert_eq!(checked_print_boundary("éa", 3), Some(3));
    assert_eq!(checked_print_boundary("éa", 4), None);
}
