pub mod text;
pub mod tags;
pub mod config;
pub mod message;
pub mod prompt;
pub mod meta;
pub mod synapse;
pub mod behaviour;
pub mod chat;
pub mod codec;
pub mod input;
pub mod websocket;
pub mod cli;
pub mod nav;
pub mod tools;
pub mod render;
pub mod spans;
pub mod paths;
pub mod stream;
pub mod frames;
pub mod reply;
pub mod session;
pub mod sha1;
pub mod ollama;
pub mod screen;
pub mod picker;
pub mod pinned;
pub mod room;
pub mod sysprompt;
pub mod turns;
pub mod attach;
pub mod keys;
pub mod settings;
pub mod select;
pub mod chat_keys;
pub mod scan;
pub mod layout;
pub mod http;
pub mod dispatch;
pub mod remote;
