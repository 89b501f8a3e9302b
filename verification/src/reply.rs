//! Editing a streamed reply once a protocol tag in it has been acted on:
//! the tag leaves the displayed text, a patch is shown as a diff block, and
//! the text the model sees ends with its tool call.
use vstd::prelude::*;
use crate::message::{message_views, Message, MessageView, Role};
use crate::tags::{reasoning_blanked_exec, scan_text};
use crate::text::{
    byte_len, chars_of, extend_chars, extend_str, find, find_exec, slice_to_vec,
    string_from_chars, trim, trim_bounds, trim_end, trim_end_index,
};

verus! {

/// The displayed reply cut before the tag beginning with `open`, found
/// outside the reasoning blocks, and trimmed at its end; unchanged without
/// the tag.
pub open spec fn cut_at_tag(content: Seq<char>, open: Seq<char>) -> Seq<char> {
    match find(scan_text(content), open) {
        Some(p) => trim_end(content.take(p)),
        None => content,
    }
}

fn trim_end_vec(v: &[char]) -> (r: Vec<char>)
    ensures
        r@ == trim_end(v@),
{
    let j = trim_end_index(v, v.len());
    assert(v@.take(v@.len() as int) =~= v@);
    slice_to_vec(v, 0, j)
}

/// The displayed reply without the tag starting with `open` and what
/// follows it (used for `<tool>` and `<ask`).
pub fn cut_display_at(content: &str, open: &str) -> (r: String)
    ensures
        r@ == cut_at_tag(content@, open@),
{
    let c = chars_of(content);
    let o = chars_of(open);
    let (rest, _) = reasoning_blanked_exec(c.as_slice());
    match find_exec(rest.as_slice(), o.as_slice()) {
        Some(p) => {
            let head = slice_to_vec(c.as_slice(), 0, p);
            assert(head@ =~= content@.take(p as int));
            let t = trim_end_vec(head.as_slice());
            string_from_chars(t.as_slice())
        },
        None => String::from_str(content),
    }
}

/// The text the model keeps of its reply: everything through the first
/// `</tool>`, or all of it without one.
pub open spec fn through_tool_close(llm: Seq<char>) -> Seq<char> {
    match find(llm, "</tool>"@) {
        Some(e) => llm.take(e + "</tool>"@.len()),
        None => llm,
    }
}

/// Cuts the model's copy of its reply after its tool call.
pub fn keep_through_tool_close(llm: &str) -> (r: String)
    ensures
        r@ == through_tool_close(llm@),
{
    let c = chars_of(llm);
    let close = chars_of("</tool>");
    let n = c.len();
    match find_exec(c.as_slice(), close.as_slice()) {
        Some(e) => {
            let v = slice_to_vec(c.as_slice(), 0, e + close.len());
            string_from_chars(v.as_slice())
        },
        None => String::from_str(llm),
    }
}

/// The displayed reply with its `<patch>…</patch>` tag replaced by a
/// fenced diff of `diff`; unchanged when the tag is not complete. Both
/// tags are looked for outside reasoning blocks.
pub open spec fn patch_rendered(content: Seq<char>, diff: Seq<char>) -> Seq<char> {
    let m = scan_text(content);
    match find(m, "<patch>"@) {
        Some(abs) => {
            match find(m.skip(abs), "</patch>"@) {
                Some(e) => {
                    let before = trim_end(content.take(abs));
                    let after = content.skip(abs + e + "</patch>"@.len());
                    let block = "```diff\n"@ + trim(diff) + "\n```"@;
                    if before.len() == 0 {
                        block + after
                    } else {
                        before + seq!['\n'] + block + after
                    }
                },
                None => content,
            }
        },
        None => content,
    }
}

/// Shows a proposed patch as a diff block in place of its tag.
pub fn render_patch(content: &str, diff: &str) -> (r: String)
    ensures
        r@ == patch_rendered(content@, diff@),
{
    let c = chars_of(content);
    let n = c.len();
    let open = chars_of("<patch>");
    let close = chars_of("</patch>");
    let (rest, _) = reasoning_blanked_exec(c.as_slice());
    let abs = match find_exec(rest.as_slice(), open.as_slice()) {
        Some(p) => p,
        None => return String::from_str(content),
    };
    let tail = slice_to_vec(rest.as_slice(), abs, n);
    assert(tail@ =~= rest@.skip(abs as int));
    let e = match find_exec(tail.as_slice(), close.as_slice()) {
        Some(e) => e,
        None => return String::from_str(content),
    };
    let head = slice_to_vec(c.as_slice(), 0, abs);
    assert(head@ =~= content@.take(abs as int));
    let before = trim_end_vec(head.as_slice());
    let after = slice_to_vec(c.as_slice(), abs + e + close.len(), n);
    assert(after@ =~= content@.skip(abs + e + "</patch>"@.len()));
    let dc = chars_of(diff);
    let (da, db) = trim_bounds(dc.as_slice());
    let mut block: Vec<char> = Vec::new();
    extend_str(&mut block, "```diff\n");
    extend_chars(&mut block, &dc.as_slice()[da..db]);
    extend_str(&mut block, "\n```");
    assert(dc@.subrange(da as int, db as int) == trim(diff@));
    let mut out: Vec<char> = Vec::new();
    if before.len() > 0 {
        extend_chars(&mut out, before.as_slice());
        out.push('\n');
    }
    extend_chars(&mut out, block.as_slice());
    extend_chars(&mut out, after.as_slice());
    assert(out@ =~= patch_rendered(content@, diff@));
    string_from_chars(out.as_slice())
}

/// The displayed reply without its `<preview …/>` tag; unchanged when
/// the tag is not complete.
pub open spec fn preview_removed(content: Seq<char>) -> Seq<char> {
    let m = scan_text(content);
    match find(m, "<preview"@) {
        Some(abs) => {
            match find(m.skip(abs), "/>"@) {
                Some(e) => trim_end(content.take(abs)) + content.skip(abs + e + "/>"@.len()),
                None => content,
            }
        },
        None => content,
    }
}

/// Removes a `<preview …/>` tag from the displayed reply.
pub fn remove_preview_tag(content: &str) -> (r: String)
    ensures
        r@ == preview_removed(content@),
{
    let c = chars_of(content);
    let n = c.len();
    let open = chars_of("<preview");
    let close = chars_of("/>");
    let (rest, _) = reasoning_blanked_exec(c.as_slice());
    let abs = match find_exec(rest.as_slice(), open.as_slice()) {
        Some(p) => p,
        None => return String::from_str(content),
    };
    let tail = slice_to_vec(rest.as_slice(), abs, n);
    assert(tail@ =~= rest@.skip(abs as int));
    let e = match find_exec(tail.as_slice(), close.as_slice()) {
        Some(e) => e,
        None => return String::from_str(content),
    };
    let head = slice_to_vec(c.as_slice(), 0, abs);
    assert(head@ =~= content@.take(abs as int));
    let mut out = trim_end_vec(head.as_slice());
    let after = slice_to_vec(c.as_slice(), abs + e + close.len(), n);
    assert(after@ =~= content@.skip(abs + e + "/>"@.len()));
    extend_chars(&mut out, after.as_slice());
    string_from_chars(out.as_slice())
}

/// Whether the reasoning, `thinking_bytes` long, has used up a budget of
/// `budget` tokens (four bytes per token; no budget when 0).
pub fn thinking_over_budget(thinking_bytes: usize, budget: usize) -> (b: bool)
    ensures
        b == (budget > 0 && thinking_bytes / 4 >= budget),
{
    budget > 0 && thinking_bytes / 4 >= budget
}

/// What a streamed chunk (`content`, and `thinking` when the model sent
/// reasoning) does to the chat `ms`, when it ends with a reply: the text
/// goes onto the reply's shown text and the text the model keeps, and the
/// reasoning onto its reasoning unless that has used up `budget` tokens.
pub open spec fn chunk_added(
    ms: Seq<MessageView>,
    content: Seq<char>,
    thinking: Option<Seq<char>>,
    budget: usize,
) -> Seq<MessageView> {
    if ms.len() > 0 && ms.last().role == Role::Assistant {
        let m = ms.last();
        let t = match thinking {
            Some(t) => if budget > 0 && byte_len(m.thinking) / 4 >= budget { m.thinking } else { m.thinking + t },
            None => m.thinking,
        };
        ms.drop_last().push(MessageView { content: m.content + content, llm: m.llm + content, thinking: t, ..m })
    } else {
        ms
    }
}

/// The chunk is the first answer text after reasoning: the chat ends with a
/// reply that has reasoning and no text yet, and the chunk brings text.
pub open spec fn answer_begins(ms: Seq<MessageView>, content: Seq<char>) -> bool {
    &&& ms.len() > 0
    &&& ms.last().role == Role::Assistant
    &&& content.len() > 0
    &&& ms.last().content.len() == 0
    &&& ms.last().thinking.len() > 0
}

/// Adds a streamed chunk to the reply the chat ends with; returns whether
/// it is the first answer text after the reasoning.
pub fn add_chunk(messages: &mut Vec<Message>, content: &str, thinking: Option<&str>, budget: usize) -> (begins: bool)
    ensures
        message_views(final(messages)@) == chunk_added(
            message_views(old(messages)@),
            content@,
            match thinking {
                Some(t) => Some(t@),
                None => None,
            },
            budget,
        ),
        begins == answer_begins(message_views(old(messages)@), content@),
{
    let n = messages.len();
    if n == 0 {
        return false;
    }
    proof {
        assert(message_views(messages@).last() == messages@[n - 1]@);
    }
    if messages[n - 1].role != Role::Assistant {
        return false;
    }
    let mut m = messages.pop().unwrap();
    proof {
        assert(message_views(messages@) =~= message_views(old(messages)@).drop_last());
    }
    let ghost before = m@;
    let begins = !content.is_empty() && m.content.as_str().is_empty() && !m.thinking.as_str().is_empty();
    m.content.append(content);
    m.llm_content.append(content);
    if let Some(t) = thinking {
        let used = m.thinking.as_str().as_bytes().len();
        if !thinking_over_budget(used, budget) {
            m.thinking.append(t);
        }
    }
    proof {
        assert(m@.content =~= before.content + content@);
        assert(m@.llm =~= before.llm + content@);
    }
    messages.push(m);
    proof {
        assert(message_views(messages@) =~= message_views(old(messages)@).drop_last().push(m@));
    }
    begins
}

} // verus!
