//! Verified core of a terminal coding-agent front end: the setup wizard's
//! state machine and provider validation, the chat session's state and how
//! session updates change it (streams, tool calls, sub-agents, approvals, the
//! end of a turn), key routing and prompt submission, what each request made of
//! the session leads to, the pickers, the layout of
//! Markdown as styled lines, and the text and cell arithmetic of the transcript,
//! prompt and spinner rows.

pub mod text;
pub mod provider;
pub mod wizard;
pub mod layout;
pub mod spinner;
pub mod skills;
pub mod format;
pub mod picker;
pub mod prompt;
pub mod tui;
pub mod wrap;
pub mod completion;
pub mod spinner_row;
pub mod todos;
pub mod session_flow;
pub mod approvals;
pub mod transcript;
pub mod transcript_text;
pub mod keymap;
pub mod tool_calls;
pub mod chat;
pub mod picker_view;
pub mod notices;
pub mod markdown;
pub mod entry_text;
pub mod ui_actions;
pub mod toolset;
