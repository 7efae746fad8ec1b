# codex_tui

The logic of a terminal chat client for a coding agent, written in Verus:
every function in `src/` carries a contract that Verus proves, except the
few wrappers around outside crates, whose contracts it takes on trust.

- `src/` — the library: the chat composer (editing, paste placeholders,
  history recall, slash-command and `@file` popups), the lines shown in the
  transcript (command output, patches, plans, status, tool calls), how
  running commands are grouped into transcript cells, patch
  summaries, citation links, the transcript overlay, the approval modal, the
  sign-in step, Git diff sequencing, scrollback insertion, the inline
  viewport and alternate screen, frame scheduling and the
  application's key and command decisions. Laws relating several functions
  are stated as `law_*` proof functions next to them.
- `tests/` — tests of the library on concrete values.
- `app/` — the program around it: terminal input and output, running `git`,
  reading image files.

Time, terminal size and the results of outside work are passed into the
library as plain values; where a step needs outside work (running `git`,
starting a login server) the library says what to do and takes the outcome
back.
