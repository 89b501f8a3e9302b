//! Behaviours: tool definitions described to the model in its system
//! message.
use vstd::prelude::*;
use crate::meta::{header_lookup, header_text, join, join_into, lines, split_meta, split_meta_exec};
use crate::text::{chars_of, extend_str, string_from_chars, views};

verus! {

/// What a behaviour does when triggered.
#[derive(Clone)]
pub enum BehaviourKind {
    Tool { action: String, usage: String, example: String },
}

/// A tool the model can invoke as `<tool>trigger args</tool>`.
pub struct Behaviour {
    pub trigger: String,
    pub description: String,
    pub kind: BehaviourKind,
}

/// A behaviour as plain text: (trigger, description, action, usage, example).
pub type BehaviourView = (Seq<char>, Seq<char>, Seq<char>, Seq<char>, Seq<char>);

pub open spec fn behaviour_view(b: Behaviour) -> BehaviourView {
    match b.kind {
        BehaviourKind::Tool { action, usage, example } => (
            b.trigger@,
            b.description@,
            action@,
            usage@,
            example@,
        ),
    }
}

/// The behaviour a definition describes: it needs a non-empty `trigger` and
/// `kind = tool`; the usage defaults to the trigger.
pub open spec fn behaviour_of(src: Seq<char>) -> Option<BehaviourView> {
    let ls = lines(split_meta(src).0);
    let trigger = header_text(ls, "trigger"@);
    let usage = header_text(ls, "usage"@);
    if trigger.len() == 0 {
        None
    } else if header_text(ls, "kind"@) != "tool"@ {
        None
    } else {
        Some(
            (
                trigger,
                header_text(ls, "description"@),
                header_text(ls, "action"@),
                if usage.len() == 0 {
                    trigger
                } else {
                    usage
                },
                split_meta(src).1,
            ),
        )
    }
}

fn lookup_text(ls: &Vec<Vec<char>>, key: &str) -> (v: Vec<char>)
    ensures
        v@ == header_text(views(ls@), key@),
{
    let k = chars_of(key);
    match header_lookup(ls, k.as_slice()) {
        Some(v) => v,
        None => Vec::new(),
    }
}

/// Parses a behaviour definition.
pub fn parse(src: &str) -> (r: Option<Behaviour>)
    ensures
        match r {
            Some(b) => behaviour_of(src@) == Some(behaviour_view(b)),
            None => behaviour_of(src@) is None,
        },
{
    let (ls, body) = split_meta_exec(src);
    let trigger = lookup_text(&ls, "trigger");
    if trigger.len() == 0 {
        return None;
    }
    let kind = lookup_text(&ls, "kind");
    let tool = chars_of("tool");
    if !crate::text::chars_eq(kind.as_slice(), tool.as_slice()) {
        return None;
    }
    let action = lookup_text(&ls, "action");
    let description = lookup_text(&ls, "description");
    let usage = lookup_text(&ls, "usage");
    let usage = if usage.len() == 0 {
        string_from_chars(trigger.as_slice())
    } else {
        string_from_chars(usage.as_slice())
    };
    Some(
        Behaviour {
            trigger: string_from_chars(trigger.as_slice()),
            description: string_from_chars(description.as_slice()),
            kind: BehaviourKind::Tool {
                action: string_from_chars(action.as_slice()),
                usage,
                example: string_from_chars(body.as_slice()),
            },
        },
    )
}

/// The tool list lines of `bs`.
pub open spec fn tool_lines(bs: Seq<Behaviour>) -> Seq<char>
    decreases bs.len(),
{
    if bs.len() == 0 {
        Seq::empty()
    } else {
        tool_lines(bs.drop_last()) + "- "@ + behaviour_view(bs.last()).3 + ": "@ + bs.last().description@
            + "\n"@
    }
}

/// The non-empty examples of `bs`.
pub open spec fn behaviour_examples(bs: Seq<Behaviour>) -> Seq<Seq<char>>
    decreases bs.len(),
{
    if bs.len() == 0 {
        seq![]
    } else {
        behaviour_examples(bs.drop_last()) + if behaviour_view(bs.last()).4.len() > 0 {
            seq![behaviour_view(bs.last()).4]
        } else {
            seq![]
        }
    }
}

/// The tool-context block for `bs`: empty when there are no tools.
pub open spec fn behaviour_context(bs: Seq<Behaviour>) -> Seq<char> {
    let ex = join(behaviour_examples(bs), "\n"@);
    if bs.len() == 0 {
        Seq::empty()
    } else {
        "You have access to the following tools:\n"@ + tool_lines(bs)
            + "\nTo use a tool, output on its own line: <tool>name args</tool>\nYou will receive the result under \"Tool result:\" and can then continue.\n"@
            + if ex.len() > 0 {
            "\n"@ + ex
        } else {
            Seq::empty()
        }
    }
}

/// Builds the block, injected at the start of every conversation, that
/// lists the available tools and their few-shot examples.
pub fn build_tool_context(behaviours: &[Behaviour]) -> (s: String)
    ensures
        s@ == behaviour_context(behaviours@),
{
    if behaviours.len() == 0 {
        return String::new();
    }
    let mut out: Vec<char> = Vec::new();
    extend_str(&mut out, "You have access to the following tools:\n");
    let mut ex: Vec<Vec<char>> = Vec::new();
    let ghost start = out@;
    let mut i: usize = 0;
    while i < behaviours.len()
        invariant
            i <= behaviours@.len(),
            out@ == start + tool_lines(behaviours@.take(i as int)),
            views(ex@) == behaviour_examples(behaviours@.take(i as int)),
        decreases behaviours.len() - i,
    {
        let ghost pre = behaviours@.take(i + 1);
        assert(pre.drop_last() =~= behaviours@.take(i as int));
        let b = &behaviours[i];
        match &b.kind {
            BehaviourKind::Tool { usage, example, .. } => {
                extend_str(&mut out, "- ");
                extend_str(&mut out, usage.as_str());
                extend_str(&mut out, ": ");
                extend_str(&mut out, b.description.as_str());
                extend_str(&mut out, "\n");
                if !example.as_str().is_empty() {
                    let e = chars_of(example.as_str());
                    proof {
                        assert(views(ex@.push(e)) =~= views(ex@).push(e@));
                    }
                    ex.push(e);
                }
            },
        }
        i += 1;
    }
    assert(behaviours@.take(behaviours@.len() as int) =~= behaviours@);
    extend_str(
        &mut out,
        "\nTo use a tool, output on its own line: <tool>name args</tool>\nYou will receive the result under \"Tool result:\" and can then continue.\n",
    );
    let mut joined: Vec<char> = Vec::new();
    let nl = chars_of("\n");
    join_into(&mut joined, &ex, nl.as_slice());
    assert(joined@ =~= join(behaviour_examples(behaviours@), "\n"@));
    if joined.len() > 0 {
        extend_str(&mut out, "\n");
        crate::text::extend_chars(&mut out, joined.as_slice());
    }
    string_from_chars(out.as_slice())
}

} // verus!
