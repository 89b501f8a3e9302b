//! Chat roles and attachments.
use vstd::prelude::*;

verus! {

/// Who wrote a message.
#[derive(Debug, Clone, Copy, PartialEq, Eq, Structural)]
pub enum Role {
    User,
    Assistant,
    /// Tool results, sent to the model as user turns.
    Tool,
}

pub open spec fn api_role_name(r: Role) -> Seq<char> {
    match r {
        Role::User | Role::Tool => seq!['u', 's', 'e', 'r'],
        Role::Assistant => seq!['a', 's', 's', 'i', 's', 't', 'a', 'n', 't'],
    }
}

impl Role {
    /// The role name the chat API expects.
    pub fn to_api_str(&self) -> (s: &'static str)
        ensures
            s@ == api_role_name(*self),
    {
        match self {
            Role::User | Role::Tool => {
                proof {
                    reveal_strlit("user");
                }
                assert("user"@ =~= api_role_name(*self));
                "user"
            },
            Role::Assistant => {
                proof {
                    reveal_strlit("assistant");
                }
                assert("assistant"@ =~= api_role_name(*self));
                "assistant"
            },
        }
    }
}

/// How an attached file is sent.
#[derive(Debug, Clone, Copy, PartialEq, Eq, Structural)]
pub enum AttachmentKind {
    Text,
    Image,
}

/// A file attached to a message; `path` is the resolved path as text.
#[derive(Debug, Clone)]
pub struct Attachment {
    pub filename: String,
    pub path: String,
    pub kind: AttachmentKind,
    pub size: usize,
}

/// An attachment as the specifications see it.
pub struct AttachmentView {
    pub filename: Seq<char>,
    pub path: Seq<char>,
    pub kind: AttachmentKind,
    pub size: usize,
}

impl View for Attachment {
    type V = AttachmentView;

    open spec fn view(&self) -> AttachmentView {
        AttachmentView { filename: self.filename@, path: self.path@, kind: self.kind, size: self.size }
    }
}

/// Token counts and timings of a finished reply.
#[derive(Debug, Clone, Copy)]
pub struct TokenStats {
    pub response_tokens: u64,
    pub prompt_eval_count: u64,
    /// Tokens per second, in tenths.
    pub tps_tenths: u64,
    /// How long the model reasoned, in milliseconds.
    pub thinking_ms: Option<u64>,
    /// How long the whole reply took, in milliseconds.
    pub wall_ms: u64,
}

/// A message of the conversation.
#[derive(Debug, Clone)]
pub struct Message {
    pub role: Role,
    /// What is shown.
    pub content: String,
    /// What the model receives; empty for display-only messages.
    pub llm_content: String,
    /// Attached images, base64-encoded.
    pub images: Vec<String>,
    pub attachments: Vec<Attachment>,
    pub thinking: String,
    /// How long the model reasoned before this message, in milliseconds.
    pub thinking_ms: Option<u64>,
    pub stats: Option<TokenStats>,
    /// The speaker's identity, or the tool label of a tool message.
    pub tool_call: Option<String>,
    /// Shown folded.
    pub tool_collapsed: bool,
}

/// A message as the specifications see it.
pub struct MessageView {
    pub role: Role,
    pub content: Seq<char>,
    pub llm: Seq<char>,
    pub images: Seq<Seq<char>>,
    pub attachments: Seq<AttachmentView>,
    pub thinking: Seq<char>,
    pub thinking_ms: Option<u64>,
    pub stats: Option<TokenStats>,
    pub label: Option<Seq<char>>,
    pub collapsed: bool,
}

/// The views of a sequence of attachments.
pub open spec fn attachment_views(v: Seq<Attachment>) -> Seq<AttachmentView> {
    v.map_values(|a: Attachment| a@)
}

/// The views of a sequence of messages.
pub open spec fn message_views(v: Seq<Message>) -> Seq<MessageView> {
    v.map_values(|m: Message| m@)
}

impl View for Message {
    type V = MessageView;

    open spec fn view(&self) -> MessageView {
        MessageView {
            role: self.role,
            content: self.content@,
            llm: self.llm_content@,
            images: self.images@.map_values(|s: String| s@),
            attachments: attachment_views(self.attachments@),
            thinking: self.thinking@,
            thinking_ms: self.thinking_ms,
            stats: self.stats,
            label: match self.tool_call {
                Some(l) => Some(l@),
                None => None,
            },
            collapsed: self.tool_collapsed,
        }
    }
}

/// A message with only its role, texts and label set.
pub open spec fn plain_message(role: Role, content: Seq<char>, llm: Seq<char>, label: Option<Seq<char>>) -> MessageView {
    MessageView {
        role,
        content,
        llm,
        images: Seq::empty(),
        attachments: Seq::empty(),
        thinking: Seq::empty(),
        thinking_ms: None,
        stats: None,
        label,
        collapsed: false,
    }
}

impl Message {
    /// A message of `role` with these texts and label, and nothing else.
    pub fn new(role: Role, content: String, llm_content: String, tool_call: Option<String>) -> (m: Message)
        ensures
            m@ == plain_message(
                role,
                content@,
                llm_content@,
                match tool_call {
                    Some(l) => Some(l@),
                    None => None,
                },
            ),
    {
        let m = Message {
            role,
            content,
            llm_content,
            images: Vec::new(),
            attachments: Vec::new(),
            thinking: String::new(),
            thinking_ms: None,
            stats: None,
            tool_call,
            tool_collapsed: false,
        };
        proof {
            assert(m.images@.map_values(|s: String| s@) =~= Seq::<Seq<char>>::empty());
            assert(attachment_views(m.attachments@) =~= Seq::<AttachmentView>::empty());
        }
        m
    }

    /// What the history navigation reads of the message.
    pub fn shape(&self) -> (s: crate::chat_keys::MessageShape)
        ensures
            s == (crate::chat_keys::MessageShape {
                role: self.role,
                content_empty: self.content@.len() == 0,
                thinking_empty: self.thinking@.len() == 0,
            }),
    {
        crate::chat_keys::MessageShape {
            role: self.role,
            content_empty: self.content.as_str().is_empty(),
            thinking_empty: self.thinking.as_str().is_empty(),
        }
    }
}

} // verus!
