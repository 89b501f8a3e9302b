//! What a key does on the chat screen. Popups and pending questions take
//! keys before the input box does: the room-share popup first, then the
//! file picker, a question from the model, the completion list, and the
//! focused pane. The function here updates the screen's own state and
//! names the rest of the work.
use vstd::prelude::*;
use crate::keys::{Key, KeyCode};
use crate::message::Role;
use crate::screen::ChatFocus;

verus! {

/// The kind of question the model is waiting on, if any.
#[derive(Debug, Clone, Copy, PartialEq, Eq, Structural)]
pub enum AskMode {
    NoAsk,
    Text,
    Confirm,
    /// A choice between this many options.
    Choice(usize),
}

/// What the chat screen's key handling reads besides its own state.
#[derive(Debug, Clone, Copy, PartialEq, Eq, Structural)]
pub struct ChatKeyContext {
    pub picker_open: bool,
    pub picker_has_query: bool,
    pub ask: AskMode,
    pub completion_open: bool,
    /// A file is loaded in the side panel and the panel is visible.
    pub file_panel_shown: bool,
    pub streaming: bool,
    pub remote: bool,
    pub has_room: bool,
    /// The input box holds more than one line.
    pub multiline: bool,
    /// The input box shows an entry of the input history.
    pub browsing_history: bool,
    pub has_history: bool,
}

/// The chat screen's own state that keys change.
#[derive(Debug, Clone, Copy, PartialEq, Eq, Structural)]
pub struct ChatUi {
    pub focus: ChatFocus,
    pub scroll: u16,
    pub auto_scroll: bool,
    pub ask_cursor: usize,
    pub show_room_share: bool,
}

/// Work a key on the chat screen asks for.
#[derive(Debug, Clone, Copy, PartialEq, Eq, Structural)]
pub enum ChatAction {
    Nothing,
    /// Copy the room's share URL.
    CopyRoomUrl,
    PickerClose,
    PickerPrev,
    PickerNext,
    PickerAccept,
    PickerGoUp,
    /// Drop the last char of the picker's search.
    PickerPopQuery,
    /// Type a char into the picker's search.
    PickerType(char),
    PickerPreviewUp,
    PickerPreviewDown,
    /// Answer the pending question "Yes" (`true`) or "No".
    AnswerConfirm(bool),
    /// Answer the pending choice with the option under the cursor.
    AnswerChoice,
    /// Answer the pending question with the trimmed input, if not blank.
    AnswerText,
    CancelAsk,
    CompleteDismiss,
    CompleteAccept,
    CompletePrev,
    CompleteNext,
    ToggleFilePanel,
    CloseFilePanel,
    PanelScrollUp,
    PanelScrollDown,
    HistoryPrev,
    HistoryNext,
    CycleAttachment,
    CopyBlock,
    EnterHistory,
    Send,
    StopStream,
    SwitchToLocal,
    /// Back to the model list.
    LeaveChat,
    CopyLastResponse,
    ClearChat,
    OpenFilePicker,
    ExportChat,
    OpenFilePickerLoad,
    /// An edit of the input box; `bool`: the completion list is refreshed
    /// afterwards.
    Edit(InputEdit, bool),
}

/// Edits of the input box.
#[derive(Debug, Clone, Copy, PartialEq, Eq, Structural)]
pub enum InputEdit {
    Insert(char),
    Backspace,
    Delete,
    Left,
    Right,
    Home,
    End,
    WordLeft,
    WordRight,
    Up,
    Down,
    Newline,
    KillToEnd,
    KillToStart,
    DeleteWordBefore,
    HistoryPrev,
    HistoryNext,
}

/// `s - n`, or 0.
pub open spec fn up_by(s: u16, n: u16) -> u16 {
    if s >= n { (s - n) as u16 } else { 0 }
}

/// `s + n`, or `u16::MAX`.
pub open spec fn down_by(s: u16, n: u16) -> u16 {
    if s + n <= u16::MAX { (s + n) as u16 } else { u16::MAX }
}

/// Scrolled up `n` lines, no longer following new output.
pub open spec fn scrolled_up(ui: ChatUi, n: u16) -> ChatUi {
    ChatUi { auto_scroll: false, scroll: up_by(ui.scroll, n), ..ui }
}

/// Scrolled down `n` lines.
pub open spec fn scrolled_down(ui: ChatUi, n: u16) -> ChatUi {
    ChatUi { scroll: down_by(ui.scroll, n), ..ui }
}

/// Back to the input box, following new output.
pub open spec fn to_input(ui: ChatUi) -> ChatUi {
    ChatUi { focus: ChatFocus::Input, auto_scroll: true, ..ui }
}

/// The room-share popup.
pub open spec fn share_step(ui: ChatUi, key: Key) -> (ChatUi, ChatAction) {
    match key.code {
        KeyCode::Esc | KeyCode::Enter => (ChatUi { show_room_share: false, ..ui }, ChatAction::Nothing),
        KeyCode::Char('y') => (ChatUi { show_room_share: false, ..ui }, ChatAction::CopyRoomUrl),
        _ => (ui, ChatAction::Nothing),
    }
}

/// The file picker.
pub open spec fn picker_step(ctx: ChatKeyContext, key: Key) -> ChatAction {
    match key.code {
        KeyCode::Esc => ChatAction::PickerClose,
        KeyCode::Up => ChatAction::PickerPrev,
        KeyCode::Down => ChatAction::PickerNext,
        KeyCode::Enter | KeyCode::Right => ChatAction::PickerAccept,
        KeyCode::Left => ChatAction::PickerGoUp,
        KeyCode::Backspace => if ctx.picker_has_query { ChatAction::PickerPopQuery } else { ChatAction::PickerGoUp },
        KeyCode::PageUp => ChatAction::PickerPreviewUp,
        KeyCode::PageDown => ChatAction::PickerPreviewDown,
        KeyCode::Char(c) => ChatAction::PickerType(c),
        _ => ChatAction::Nothing,
    }
}

/// A pending question from the model.
pub open spec fn ask_step(ui: ChatUi, ctx: ChatKeyContext, key: Key) -> (ChatUi, ChatAction) {
    match ctx.ask {
        AskMode::Confirm => match key.code {
            KeyCode::Char('y') | KeyCode::Char('Y') | KeyCode::Enter => (ui, ChatAction::AnswerConfirm(true)),
            KeyCode::Char('n') | KeyCode::Char('N') | KeyCode::Esc => (ui, ChatAction::AnswerConfirm(false)),
            _ => (ui, ChatAction::Nothing),
        },
        AskMode::Choice(n) => match key.code {
            KeyCode::Up => (
                ChatUi { ask_cursor: if ui.ask_cursor > 0 { (ui.ask_cursor - 1) as usize } else { ui.ask_cursor }, ..ui },
                ChatAction::Nothing,
            ),
            KeyCode::Down => (
                ChatUi { ask_cursor: if ui.ask_cursor + 1 < n { (ui.ask_cursor + 1) as usize } else { ui.ask_cursor }, ..ui },
                ChatAction::Nothing,
            ),
            KeyCode::Enter => (ui, ChatAction::AnswerChoice),
            KeyCode::Esc => (ui, ChatAction::CancelAsk),
            _ => (ui, ChatAction::Nothing),
        },
        _ => match key.code {
            KeyCode::Enter => (ui, ChatAction::AnswerText),
            KeyCode::Esc => (ui, ChatAction::CancelAsk),
            KeyCode::Backspace => (ui, ChatAction::Edit(InputEdit::Backspace, false)),
            KeyCode::Delete => (ui, ChatAction::Edit(InputEdit::Delete, false)),
            KeyCode::Left => (ui, ChatAction::Edit(InputEdit::Left, false)),
            KeyCode::Right => (ui, ChatAction::Edit(InputEdit::Right, false)),
            KeyCode::Char(c) => (ui, ChatAction::Edit(InputEdit::Insert(c), false)),
            _ => (ui, ChatAction::Nothing),
        },
    }
}

/// The completion list takes Esc, Tab, Enter, Up and Down.
pub open spec fn completion_action(key: Key) -> Option<ChatAction> {
    match key.code {
        KeyCode::Esc => Some(ChatAction::CompleteDismiss),
        KeyCode::Tab | KeyCode::Enter => Some(ChatAction::CompleteAccept),
        KeyCode::Up => Some(ChatAction::CompletePrev),
        KeyCode::Down => Some(ChatAction::CompleteNext),
        _ => None,
    }
}

/// The side panel has the keyboard.
pub open spec fn panel_step(ui: ChatUi, key: Key) -> (ChatUi, ChatAction) {
    match key.code {
        KeyCode::Tab => (to_input(ui), ChatAction::Nothing),
        KeyCode::Esc | KeyCode::Char('q') => (ui, ChatAction::CloseFilePanel),
        KeyCode::PageUp => (ui, ChatAction::PanelScrollUp),
        KeyCode::PageDown => (ui, ChatAction::PanelScrollDown),
        _ => (ui, ChatAction::Nothing),
    }
}

/// The message history has the keyboard.
pub open spec fn history_step(ui: ChatUi, ctx: ChatKeyContext, key: Key) -> (ChatUi, ChatAction) {
    match key.code {
        KeyCode::Tab => if ctx.file_panel_shown {
            (ChatUi { focus: ChatFocus::FilePanel, ..ui }, ChatAction::Nothing)
        } else {
            (to_input(ui), ChatAction::Nothing)
        },
        KeyCode::Esc => (to_input(ui), ChatAction::Nothing),
        KeyCode::Up => (ui, ChatAction::HistoryPrev),
        KeyCode::Down => (ui, ChatAction::HistoryNext),
        KeyCode::PageUp => (scrolled_up(ui, 10), ChatAction::Nothing),
        KeyCode::PageDown => (scrolled_down(ui, 10), ChatAction::Nothing),
        KeyCode::Enter => (ui, ChatAction::CycleAttachment),
        KeyCode::Char('q') => (ui, ChatAction::CloseFilePanel),
        KeyCode::Char('y') => if key.ctrl { (ui, ChatAction::CopyBlock) } else { (ui, ChatAction::Nothing) },
        _ => (ui, ChatAction::Nothing),
    }
}

/// A Ctrl+letter shortcut of the input box, if the letter has one.
pub open spec fn ctrl_action(ui: ChatUi, ctx: ChatKeyContext, c: char) -> Option<(ChatUi, ChatAction)> {
    if c == 'n' {
        Some((ui, ChatAction::Edit(InputEdit::Newline, true)))
    } else if c == 'a' {
        Some((ui, ChatAction::Edit(InputEdit::Home, false)))
    } else if c == 'e' {
        Some((ui, ChatAction::Edit(InputEdit::End, false)))
    } else if c == 'k' {
        Some((ui, ChatAction::Edit(InputEdit::KillToEnd, false)))
    } else if c == 'u' {
        Some((ui, ChatAction::Edit(InputEdit::KillToStart, false)))
    } else if c == 'w' {
        Some((ui, ChatAction::Edit(InputEdit::DeleteWordBefore, true)))
    } else if c == 'y' {
        Some((ui, ChatAction::CopyLastResponse))
    } else if c == 'l' {
        Some((ui, ChatAction::ClearChat))
    } else if c == 'p' {
        Some((ui, ChatAction::OpenFilePicker))
    } else if c == 's' {
        Some((ui, ChatAction::ExportChat))
    } else if c == 'o' {
        Some((ui, ChatAction::OpenFilePickerLoad))
    } else if c == 'j' {
        Some((if ctx.has_room { ChatUi { show_room_share: true, ..ui } } else { ui }, ChatAction::Nothing))
    } else {
        None
    }
}

/// The input box has the keyboard.
pub open spec fn input_step(ui: ChatUi, ctx: ChatKeyContext, key: Key) -> (ChatUi, ChatAction) {
    let word = key.ctrl || key.alt;
    match key.code {
        KeyCode::Tab => (ui, ChatAction::EnterHistory),
        KeyCode::Enter => (ui, ChatAction::Send),
        KeyCode::Esc => (
            ui,
            if ctx.streaming {
                ChatAction::StopStream
            } else if ctx.remote {
                ChatAction::SwitchToLocal
            } else {
                ChatAction::LeaveChat
            },
        ),
        KeyCode::Home => (ui, ChatAction::Edit(InputEdit::Home, false)),
        KeyCode::End => if key.ctrl {
            (ChatUi { auto_scroll: true, ..ui }, ChatAction::Nothing)
        } else {
            (ui, ChatAction::Edit(InputEdit::End, false))
        },
        KeyCode::Left => (ui, ChatAction::Edit(if word { InputEdit::WordLeft } else { InputEdit::Left }, true)),
        KeyCode::Right => (ui, ChatAction::Edit(if word { InputEdit::WordRight } else { InputEdit::Right }, true)),
        KeyCode::Up => if key.alt {
            (scrolled_up(ui, 1), ChatAction::Nothing)
        } else if ctx.multiline {
            (ui, ChatAction::Edit(InputEdit::Up, true))
        } else if ctx.browsing_history || ctx.has_history {
            (ui, ChatAction::Edit(InputEdit::HistoryPrev, false))
        } else {
            (scrolled_up(ui, 1), ChatAction::Nothing)
        },
        KeyCode::Down => if key.alt {
            (scrolled_down(ui, 1), ChatAction::Nothing)
        } else if ctx.multiline {
            (ui, ChatAction::Edit(InputEdit::Down, true))
        } else if ctx.browsing_history {
            (ui, ChatAction::Edit(InputEdit::HistoryNext, false))
        } else {
            (scrolled_down(ui, 1), ChatAction::Nothing)
        },
        KeyCode::PageUp => (scrolled_up(ui, 10), ChatAction::Nothing),
        KeyCode::PageDown => (scrolled_down(ui, 10), ChatAction::Nothing),
        KeyCode::Char(c) => if key.ctrl && ctrl_action(ui, ctx, c) is Some {
            ctrl_action(ui, ctx, c).unwrap()
        } else {
            (ui, ChatAction::Edit(InputEdit::Insert(c), true))
        },
        KeyCode::Backspace => (ui, ChatAction::Edit(InputEdit::Backspace, true)),
        KeyCode::Delete => (ui, ChatAction::Edit(InputEdit::Delete, true)),
        _ => (ui, ChatAction::Nothing),
    }
}

/// What a key does on the chat screen (after the help popup had its turn).
pub open spec fn chat_step(ui: ChatUi, ctx: ChatKeyContext, key: Key) -> (ChatUi, ChatAction) {
    if ui.show_room_share {
        share_step(ui, key)
    } else if ctx.picker_open {
        (ui, picker_step(ctx, key))
    } else if ctx.ask != AskMode::NoAsk {
        ask_step(ui, ctx, key)
    } else if ctx.completion_open && completion_action(key) is Some {
        (ui, completion_action(key).unwrap())
    } else if key.ctrl && key.code == KeyCode::Char('b') {
        (ui, ChatAction::ToggleFilePanel)
    } else if ui.focus == ChatFocus::FilePanel {
        panel_step(ui, key)
    } else if ui.focus == ChatFocus::History {
        history_step(ui, ctx, key)
    } else {
        input_step(ui, ctx, key)
    }
}

fn scroll_up(ui: &mut ChatUi, n: u16)
    ensures
        *final(ui) == scrolled_up(*old(ui), n),
{
    ui.auto_scroll = false;
    ui.scroll = ui.scroll.saturating_sub(n);
}

fn scroll_down(ui: &mut ChatUi, n: u16)
    ensures
        *final(ui) == scrolled_down(*old(ui), n),
{
    ui.scroll = ui.scroll.saturating_add(n);
}

fn ctrl_key(ui: &mut ChatUi, ctx: ChatKeyContext, c: char) -> (r: Option<ChatAction>)
    ensures
        match r {
            Some(a) => ctrl_action(*old(ui), ctx, c) == Some((*final(ui), a)),
            None => ctrl_action(*old(ui), ctx, c) is None && *final(ui) == *old(ui),
        },
{
    if c == 'n' {
        Some(ChatAction::Edit(InputEdit::Newline, true))
    } else if c == 'a' {
        Some(ChatAction::Edit(InputEdit::Home, false))
    } else if c == 'e' {
        Some(ChatAction::Edit(InputEdit::End, false))
    } else if c == 'k' {
        Some(ChatAction::Edit(InputEdit::KillToEnd, false))
    } else if c == 'u' {
        Some(ChatAction::Edit(InputEdit::KillToStart, false))
    } else if c == 'w' {
        Some(ChatAction::Edit(InputEdit::DeleteWordBefore, true))
    } else if c == 'y' {
        Some(ChatAction::CopyLastResponse)
    } else if c == 'l' {
        Some(ChatAction::ClearChat)
    } else if c == 'p' {
        Some(ChatAction::OpenFilePicker)
    } else if c == 's' {
        Some(ChatAction::ExportChat)
    } else if c == 'o' {
        Some(ChatAction::OpenFilePickerLoad)
    } else if c == 'j' {
        if ctx.has_room {
            ui.show_room_share = true;
        }
        Some(ChatAction::Nothing)
    } else {
        None
    }
}

fn input_key(ui: &mut ChatUi, ctx: ChatKeyContext, key: Key) -> (a: ChatAction)
    ensures
        (*final(ui), a) == input_step(*old(ui), ctx, key),
{
    let word = key.ctrl || key.alt;
    match key.code {
        KeyCode::Tab => ChatAction::EnterHistory,
        KeyCode::Enter => ChatAction::Send,
        KeyCode::Esc => {
            if ctx.streaming {
                ChatAction::StopStream
            } else if ctx.remote {
                ChatAction::SwitchToLocal
            } else {
                ChatAction::LeaveChat
            }
        },
        KeyCode::Home => ChatAction::Edit(InputEdit::Home, false),
        KeyCode::End => {
            if key.ctrl {
                ui.auto_scroll = true;
                ChatAction::Nothing
            } else {
                ChatAction::Edit(InputEdit::End, false)
            }
        },
        KeyCode::Left => ChatAction::Edit(
            if word {
                InputEdit::WordLeft
            } else {
                InputEdit::Left
            },
            true,
        ),
        KeyCode::Right => ChatAction::Edit(
            if word {
                InputEdit::WordRight
            } else {
                InputEdit::Right
            },
            true,
        ),
        KeyCode::Up => {
            if key.alt {
                scroll_up(ui, 1);
                ChatAction::Nothing
            } else if ctx.multiline {
                ChatAction::Edit(InputEdit::Up, true)
            } else if ctx.browsing_history || ctx.has_history {
                ChatAction::Edit(InputEdit::HistoryPrev, false)
            } else {
                scroll_up(ui, 1);
                ChatAction::Nothing
            }
        },
        KeyCode::Down => {
            if key.alt {
                scroll_down(ui, 1);
                ChatAction::Nothing
            } else if ctx.multiline {
                ChatAction::Edit(InputEdit::Down, true)
            } else if ctx.browsing_history {
                ChatAction::Edit(InputEdit::HistoryNext, false)
            } else {
                scroll_down(ui, 1);
                ChatAction::Nothing
            }
        },
        KeyCode::PageUp => {
            scroll_up(ui, 10);
            ChatAction::Nothing
        },
        KeyCode::PageDown => {
            scroll_down(ui, 10);
            ChatAction::Nothing
        },
        KeyCode::Char(c) => {
            if key.ctrl {
                match ctrl_key(ui, ctx, c) {
                    Some(a) => {
                        return a;
                    },
                    None => {},
                }
            }
            ChatAction::Edit(InputEdit::Insert(c), true)
        },
        KeyCode::Backspace => ChatAction::Edit(InputEdit::Backspace, true),
        KeyCode::Delete => ChatAction::Edit(InputEdit::Delete, true),
        _ => ChatAction::Nothing,
    }
}

fn ask_key(ui: &mut ChatUi, ctx: ChatKeyContext, key: Key) -> (a: ChatAction)
    ensures
        (*final(ui), a) == ask_step(*old(ui), ctx, key),
{
    match ctx.ask {
        AskMode::Confirm => match key.code {
            KeyCode::Char('y') | KeyCode::Char('Y') | KeyCode::Enter => ChatAction::AnswerConfirm(true),
            KeyCode::Char('n') | KeyCode::Char('N') | KeyCode::Esc => ChatAction::AnswerConfirm(false),
            _ => ChatAction::Nothing,
        },
        AskMode::Choice(n) => match key.code {
            KeyCode::Up => {
                if ui.ask_cursor > 0 {
                    ui.ask_cursor = ui.ask_cursor - 1;
                }
                ChatAction::Nothing
            },
            KeyCode::Down => {
                if ui.ask_cursor < n && ui.ask_cursor + 1 < n {
                    ui.ask_cursor = ui.ask_cursor + 1;
                }
                ChatAction::Nothing
            },
            KeyCode::Enter => ChatAction::AnswerChoice,
            KeyCode::Esc => ChatAction::CancelAsk,
            _ => ChatAction::Nothing,
        },
        _ => match key.code {
            KeyCode::Enter => ChatAction::AnswerText,
            KeyCode::Esc => ChatAction::CancelAsk,
            KeyCode::Backspace => ChatAction::Edit(InputEdit::Backspace, false),
            KeyCode::Delete => ChatAction::Edit(InputEdit::Delete, false),
            KeyCode::Left => ChatAction::Edit(InputEdit::Left, false),
            KeyCode::Right => ChatAction::Edit(InputEdit::Right, false),
            KeyCode::Char(c) => ChatAction::Edit(InputEdit::Insert(c), false),
            _ => ChatAction::Nothing,
        },
    }
}

fn history_key(ui: &mut ChatUi, ctx: ChatKeyContext, key: Key) -> (a: ChatAction)
    ensures
        (*final(ui), a) == history_step(*old(ui), ctx, key),
{
    match key.code {
        KeyCode::Tab => {
            if ctx.file_panel_shown {
                ui.focus = ChatFocus::FilePanel;
            } else {
                ui.focus = ChatFocus::Input;
                ui.auto_scroll = true;
            }
            ChatAction::Nothing
        },
        KeyCode::Esc => {
            ui.focus = ChatFocus::Input;
            ui.auto_scroll = true;
            ChatAction::Nothing
        },
        KeyCode::Up => ChatAction::HistoryPrev,
        KeyCode::Down => ChatAction::HistoryNext,
        KeyCode::PageUp => {
            scroll_up(ui, 10);
            ChatAction::Nothing
        },
        KeyCode::PageDown => {
            scroll_down(ui, 10);
            ChatAction::Nothing
        },
        KeyCode::Enter => ChatAction::CycleAttachment,
        KeyCode::Char('q') => ChatAction::CloseFilePanel,
        KeyCode::Char('y') => {
            if key.ctrl {
                ChatAction::CopyBlock
            } else {
                ChatAction::Nothing
            }
        },
        _ => ChatAction::Nothing,
    }
}

/// Applies a key on the chat screen (after the help popup had its turn):
/// updates the screen's own state and returns the rest of the work.
pub fn chat_key(ui: &mut ChatUi, ctx: ChatKeyContext, key: Key) -> (a: ChatAction)
    ensures
        (*final(ui), a) == chat_step(*old(ui), ctx, key),
{
    if ui.show_room_share {
        return match key.code {
            KeyCode::Esc | KeyCode::Enter => {
                ui.show_room_share = false;
                ChatAction::Nothing
            },
            KeyCode::Char('y') => {
                ui.show_room_share = false;
                ChatAction::CopyRoomUrl
            },
            _ => ChatAction::Nothing,
        };
    }
    if ctx.picker_open {
        return match key.code {
            KeyCode::Esc => ChatAction::PickerClose,
            KeyCode::Up => ChatAction::PickerPrev,
            KeyCode::Down => ChatAction::PickerNext,
            KeyCode::Enter | KeyCode::Right => ChatAction::PickerAccept,
            KeyCode::Left => ChatAction::PickerGoUp,
            KeyCode::Backspace => if ctx.picker_has_query {
                ChatAction::PickerPopQuery
            } else {
                ChatAction::PickerGoUp
            },
            KeyCode::PageUp => ChatAction::PickerPreviewUp,
            KeyCode::PageDown => ChatAction::PickerPreviewDown,
            KeyCode::Char(c) => ChatAction::PickerType(c),
            _ => ChatAction::Nothing,
        };
    }
    if ctx.ask != AskMode::NoAsk {
        return ask_key(ui, ctx, key);
    }
    if ctx.completion_open {
        match key.code {
            KeyCode::Esc => {
                return ChatAction::CompleteDismiss;
            },
            KeyCode::Tab | KeyCode::Enter => {
                return ChatAction::CompleteAccept;
            },
            KeyCode::Up => {
                return ChatAction::CompletePrev;
            },
            KeyCode::Down => {
                return ChatAction::CompleteNext;
            },
            _ => {},
        }
    }
    if key.ctrl && key.code == KeyCode::Char('b') {
        return ChatAction::ToggleFilePanel;
    }
    if ui.focus == ChatFocus::FilePanel {
        return match key.code {
            KeyCode::Tab => {
                ui.focus = ChatFocus::Input;
                ui.auto_scroll = true;
                ChatAction::Nothing
            },
            KeyCode::Esc | KeyCode::Char('q') => ChatAction::CloseFilePanel,
            KeyCode::PageUp => ChatAction::PanelScrollUp,
            KeyCode::PageDown => ChatAction::PanelScrollDown,
            _ => ChatAction::Nothing,
        };
    }
    if ui.focus == ChatFocus::History {
        return history_key(ui, ctx, key);
    }
    input_key(ui, ctx, key)
}

// ── navigating the message history ────────────────────────────────────────

/// What the history navigation reads of a message.
#[derive(Debug, Clone, Copy, PartialEq, Eq, Structural)]
pub struct MessageShape {
    pub role: Role,
    pub content_empty: bool,
    pub thinking_empty: bool,
}

/// A message shows in the history unless it is an assistant reply with
/// neither text nor thinking yet.
pub open spec fn is_navigable(m: MessageShape) -> bool {
    !(m.role == Role::Assistant && m.content_empty && m.thinking_empty)
}

/// Whether a message shows in the history (an assistant reply still
/// without text or thinking does not, and is dropped when its stream
/// ends early).
pub fn shows_in_history(m: MessageShape) -> (b: bool)
    ensures
        b == is_navigable(m),
{
    let assistant = match m.role {
        Role::Assistant => true,
        _ => false,
    };
    !(assistant && m.content_empty && m.thinking_empty)
}

/// The indices of the messages that show in the history, in order.
pub open spec fn navigable(ms: Seq<MessageShape>) -> Seq<usize>
    decreases ms.len(),
{
    if ms.len() == 0 {
        seq![]
    } else {
        navigable(ms.drop_last()) + if is_navigable(ms.last()) { seq![(ms.len() - 1) as usize] } else { seq![] }
    }
}

/// The indices of the messages that show in the history.
pub fn navigable_messages(ms: &[MessageShape]) -> (r: Vec<usize>)
    ensures
        r@ == navigable(ms@),
{
    let mut r: Vec<usize> = Vec::new();
    let mut i: usize = 0;
    while i < ms.len()
        invariant
            i <= ms@.len(),
            r@ == navigable(ms@.take(i as int)),
        decreases ms.len() - i,
    {
        assert(ms@.take(i + 1).drop_last() =~= ms@.take(i as int));
        let m = ms[i];
        let assistant = match m.role {
            Role::Assistant => true,
            _ => false,
        };
        if !(assistant && m.content_empty && m.thinking_empty) {
            r.push(i);
        }
        i += 1;
    }
    assert(ms@.take(ms@.len() as int) =~= ms@);
    r
}

/// The first position of `x` in `s`, if any.
pub open spec fn position_of(s: Seq<usize>, x: usize) -> Option<int>
    decreases s.len(),
{
    if s.len() == 0 {
        None
    } else {
        match position_of(s.drop_last(), x) {
            Some(p) => Some(p),
            None => if s.last() == x { Some(s.len() - 1) } else { None },
        }
    }
}

proof fn lemma_position_of(s: Seq<usize>, x: usize)
    ensures
        match position_of(s, x) {
            Some(p) => 0 <= p < s.len() && s[p] == x && forall|j: int| 0 <= j < p ==> s[j] != x,
            None => forall|j: int| 0 <= j < s.len() ==> s[j] != x,
        },
    decreases s.len(),
{
    if s.len() > 0 {
        lemma_position_of(s.drop_last(), x);
        assert forall|j: int| 0 <= j < s.len() - 1 implies s.drop_last()[j] == s[j] by {}
    }
}

fn find_position(s: &[usize], x: usize) -> (r: Option<usize>)
    ensures
        match r {
            Some(p) => position_of(s@, x) == Some(p as int),
            None => position_of(s@, x) is None,
        },
{
    proof {
        lemma_position_of(s@, x);
    }
    let mut i: usize = 0;
    while i < s.len()
        invariant
            i <= s@.len(),
            forall|j: int| 0 <= j < i ==> s@[j] != x,
            match position_of(s@, x) {
                Some(p) => 0 <= p < s@.len() && s@[p] == x && forall|j: int| 0 <= j < p ==> s@[j] != x,
                None => forall|j: int| 0 <= j < s@.len() ==> s@[j] != x,
            },
        decreases s.len() - i,
    {
        if s[i] == x {
            return Some(i);
        }
        i += 1;
    }
    None
}

/// The history cursor after Up: the previous message shown, or unchanged
/// at the first or when the cursor is on no message shown.
pub open spec fn history_prev_target(cursor: usize, nav: Seq<usize>) -> usize {
    match position_of(nav, cursor) {
        Some(p) => if p > 0 { nav[p - 1] } else { cursor },
        None => cursor,
    }
}

/// The history cursor after Down: the next message shown, or unchanged at
/// the last or when the cursor is on no message shown.
pub open spec fn history_next_target(cursor: usize, nav: Seq<usize>) -> usize {
    match position_of(nav, cursor) {
        Some(p) => if p + 1 < nav.len() { nav[p + 1] } else { cursor },
        None => cursor,
    }
}

/// Moves the history cursor up among the messages shown.
pub fn history_nav_prev(cursor: &mut usize, ms: &[MessageShape])
    ensures
        *final(cursor) == history_prev_target(*old(cursor), navigable(ms@)),
{
    let nav = navigable_messages(ms);
    proof {
        lemma_position_of(nav@, *cursor);
    }
    if let Some(p) = find_position(nav.as_slice(), *cursor) {
        if p > 0 {
            *cursor = nav[p - 1];
        }
    }
}

/// Moves the history cursor down among the messages shown.
pub fn history_nav_next(cursor: &mut usize, ms: &[MessageShape])
    ensures
        *final(cursor) == history_next_target(*old(cursor), navigable(ms@)),
{
    let nav = navigable_messages(ms);
    proof {
        lemma_position_of(nav@, *cursor);
    }
    let n = nav.len();
    if let Some(p) = find_position(nav.as_slice(), *cursor) {
        if p + 1 < n {
            *cursor = nav[p + 1];
        }
    }
}

/// Tab on the input box: the history takes the keyboard at its last
/// message, if any message shows; `None` when none does.
pub fn enter_history(ms: &[MessageShape]) -> (r: Option<usize>)
    ensures
        r == (if navigable(ms@).len() > 0 { Some(navigable(ms@).last()) } else { None::<usize> }),
{
    let nav = navigable_messages(ms);
    if nav.len() > 0 {
        Some(nav[nav.len() - 1])
    } else {
        None
    }
}

// ── laws ──────────────────────────────────────────────────────────────────

/// While a yes/no question is pending (and no popup or picker is open),
/// no key sends a message, leaves the chat or edits the input: each key
/// answers, or does nothing.
pub proof fn lemma_confirm_takes_keys(ui: ChatUi, ctx: ChatKeyContext, key: Key)
    requires
        !ui.show_room_share,
        !ctx.picker_open,
        ctx.ask == AskMode::Confirm,
    ensures
        chat_step(ui, ctx, key).0 == ui,
        chat_step(ui, ctx, key).1 == ChatAction::AnswerConfirm(true) || chat_step(ui, ctx, key).1
            == ChatAction::AnswerConfirm(false) || chat_step(ui, ctx, key).1 == ChatAction::Nothing,
{
}

/// The cursor of a pending choice stays on an option.
pub proof fn lemma_choice_cursor_in_range(ui: ChatUi, ctx: ChatKeyContext, key: Key, n: usize)
    requires
        !ui.show_room_share,
        !ctx.picker_open,
        ctx.ask == AskMode::Choice(n),
        ui.ask_cursor < n,
    ensures
        chat_step(ui, ctx, key).0.ask_cursor < n,
{
}

/// Moving up then down in the history comes back to the same message,
/// when the cursor was on a shown message after the first.
pub proof fn lemma_history_up_down(cursor: usize, ms: Seq<MessageShape>)
    requires
        ms.len() <= usize::MAX,
        position_of(navigable(ms), cursor) matches Some(p) && p > 0,
    ensures
        history_next_target(history_prev_target(cursor, navigable(ms)), navigable(ms)) == cursor,
{
    let nav = navigable(ms);
    lemma_navigable_sorted(ms);
    lemma_position_of(nav, cursor);
    let p = position_of(nav, cursor).unwrap();
    let q = nav[p - 1];
    lemma_position_of(nav, q);
    let r = position_of(nav, q).unwrap();
    if r < p - 1 {
        assert(nav[r] < nav[p - 1]);
    }
}

/// The indices of the shown messages are strictly ascending and in range.
pub proof fn lemma_navigable_sorted(ms: Seq<MessageShape>)
    requires
        ms.len() <= usize::MAX,
    ensures
        forall|i: int, j: int| 0 <= i < j < navigable(ms).len() ==> navigable(ms)[i] < navigable(ms)[j],
        forall|i: int| 0 <= i < navigable(ms).len() ==> navigable(ms)[i] < ms.len(),
    decreases ms.len(),
{
    if ms.len() > 0 {
        let a = navigable(ms.drop_last());
        lemma_navigable_sorted(ms.drop_last());
        let tail: Seq<usize> = if is_navigable(ms.last()) { seq![(ms.len() - 1) as usize] } else { seq![] };
        let r = a + tail;
        assert(navigable(ms) == r);
        assert forall|i: int, j: int| 0 <= i < j < r.len() implies r[i] < r[j] by {
            if j >= a.len() {
                assert(r[j] == tail[j - a.len()]);
                assert(r[j] == ms.len() - 1);
                assert(r[i] == a[i]);
            }
        }
        assert forall|i: int| 0 <= i < r.len() implies r[i] < ms.len() by {
            if i < a.len() {
                assert(r[i] == a[i]);
            }
        }
    }
}

} // verus!
