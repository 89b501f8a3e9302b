//! The states of the terminal interface.
use vstd::prelude::*;

verus! {

/// The screen on show.
#[derive(Debug, Clone, Copy, PartialEq, Eq, Structural)]
pub enum Screen {
    Config,
    ModelSelect,
    RemoteConnect,
    Chat,
}

/// Whether a reply is streaming.
#[derive(Debug, Clone)]
pub enum StreamState {
    Idle,
    Streaming,
    Error(String),
}

/// Which part of the chat screen has the keyboard.
#[derive(Debug, Clone, Copy, PartialEq, Eq, Structural)]
pub enum ChatFocus {
    Input,
    History,
    FilePanel,
}

impl StreamState {
    /// Whether a reply is streaming.
    pub fn is_streaming(&self) -> (b: bool)
        ensures
            b == (*self is Streaming),
    {
        match self {
            StreamState::Streaming => true,
            _ => false,
        }
    }
}

} // verus!
