# picopilot

The verified core of a terminal front end for a coding agent, written in Verus.
Every function under `src/` carries a contract; Verus proves all of them except
five small trusted wrappers marked `#[verifier::external_body]`, each of which
only makes one outside call and whose contract is taken on trust: `push_char`
(`String::push`), `graphemes_of` (`unicode-segmentation`'s extended grapheme
clusters, named `extended_graphemes`), `unicode_width_of` (`unicode-width`'s
string width, named `unicode_str_width`), `hash_turn_and_prompt` (std's default
hasher, about whose value nothing is promised) and `parse_markdown`
(`pulldown-cmark`'s parser, named `pulldown_events`). `app/` holds the terminal
glue that cannot be verified: the chat window's loop around a session supplied by
the caller, drawing with ratatui, key events from crossterm, and the labels and
colours that need floating point.

## Layout

- `src/chat.rs` — the chat session's state and the reducer that applies each
  update from the session, the typed prompt, the tool and skill pickers' ticks,
  and the `/status` and `/usage` blocks; laws about blocking errors, the end of a
  turn, echoed user messages, new conversations and the pickers.
- `src/transcript.rs`, `src/tool_calls.rs` — streamed answers and reasoning,
  tool-call headers, progress and results, sub-agents; laws that a call starts
  and ends once and that streams do not interfere.
- `src/keymap.rs` — what each key asks for in each state, and what a submitted
  prompt asks for (message, fleet run or local command).
- `src/ui_actions.rs` — what happens around each request made of the session:
  tool and skill changes only while idle, failed changes rolled back, lost
  connections recovered, other failures told as banners or command output.
- `src/approvals.rs`, `src/picker.rs`, `src/picker_view.rs` — the approval queue
  (answered in arrival order), picker navigation and what an open picker shows.
- `src/completion.rs`, `src/prompt.rs`, `src/wrap.rs`, `src/layout.rs` — slash
  completion, the prompt area's layout and the wrapping of the input by
  terminal cells.
- `src/spinner.rs`, `src/spinner_row.rs`, `src/todos.rs`, `src/format.rs` — the
  busy spinner, its status row, the to-do block and number and duration text.
- `src/markdown.rs` — Markdown text parsed with pulldown-cmark and its events
  laid out as lines of styled spans (headings, lists, quotes, code blocks, rules,
  task markers, tables); laws that table rows line up and that muted text takes
  no accent colour.
- `src/toolset.rs` — the seven built-in tools and a selection of them; the tool
  picker's ticks live in `src/chat.rs`, with the law that the picker changes only
  its ticks until a selection is applied.
- `src/wizard.rs`, `src/provider.rs` — the setup wizard and provider profiles.
- `src/entry_text.rs` — what each transcript entry shows (Markdown body,
  reasoning under its prefix, labelled rows, or nothing).
- `src/notices.rs`, `src/session_flow.rs`, `src/transcript_text.rs`, `src/tui.rs`,
  `src/skills.rs`, `src/text.rs` — notices, reconnect and fleet decisions, text
  of transcript rows, model metadata, skills and character-level helpers.

The tests under `tests/` exercise the library on concrete values.
