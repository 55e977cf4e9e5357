# wizard

A terminal coding agent's logic, as a Verus library, with a thin program around
it.

- `src/app/` is the terminal application: its state (`state.rs`), what every
  key, paste, mouse and agent event does to it (`input.rs` and the modules it
  draws on), what every slash command does (`run.rs`), and what comes back from
  the work that commands ask for (`done.rs`, `engine.rs`).
- `src/checkpoint.rs` decides which copies of files are taken before an edit,
  and how a rewind puts them back.
- `src/claude_session/` reads another agent's session files, and
  `src/claude_resume.rs` turns one into a conversation of our own.
- `src/bench/` holds the benchmark's rules: cases, recorded turns, the replay of
  a case step by step, and the comparison of two results.
- `src/members.rs` splits the text of a JSON object into its members, so that a
  field written twice is seen and what stands beside the fields is left unread.
- `app/` is the program: the terminal, files, processes and settings. Turns run
  through the command in `WIZARD_AGENT`. The agent to import from is described by
  `WIZARD_PEER_NAME`, `WIZARD_PEER_WORD` and `WIZARD_PEER_HOME`.

Each function's contract is stated over the view of the values it works on. The
laws that span functions are public proof functions named `law_*`. Calls into
other crates stand behind small wrappers whose contracts are believed: JSON text
(`src/json.rs`), base64 (`src/app/paste.rs`), time stamps
(`src/claude_session/line.rs`, `src/claude_resume.rs`), home directories
(`src/paths.rs`) and the debug form of a text (`src/text.rs`).
