# cognilite

A terminal chat client for local Ollama models, with neurons (instruction
and tool bundles), tool calls, file attachments and pinned files, a headless
runner, and a server that lets several participants share a chat room over
WebSocket.

## Layout

- `src/` — the library, verified with Verus: parsing of tags, tool calls,
  settings files and command lines; the input box and its completion; the
  key handling of every screen (as functions from state and key to new state
  and the outside work to do); what a streamed reply asks for, and what each
  frame of a remote session does to the chat; prompt and system-message
  building; WebSocket frames, the handshake, HTTP request reading and
  routing; SHA-1 and base64; text wrapping and markdown reading for display;
  room state.
- `app/` — the program around it: terminal drawing (ratatui), key events
  (crossterm), HTTP calls to Ollama (ureq), sockets, threads, clocks, files,
  child processes and syntax highlighting (syntect). It carries out what the
  library decides.
- `tests/` — tests of the library, run against the compiled crate.
