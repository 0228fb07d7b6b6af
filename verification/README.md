# codex_token_usage

A ledger of the token counts that Codex writes to its session logs, with the
dashboard, detail tree, summaries, CSV exports, settings, retention, backups
and self-update logic of the Codex Token Usage desktop tool.

- `src/` is the library, verified with Verus. It reads session-log lines into
  token counts and the actions that led to them, grades counts, filters and
  groups them, and builds every figure, row and bucket the dashboard shows;
  it also decides update sources, versions, file names, package checks and
  where the tool keeps its files. JSON parsing and date handling go through
  `serde_json` and `chrono`, behind a few trusted wrappers in `json.rs`,
  `time.rs`, `text.rs` and `ledger.rs`.
- `tests/` runs the library on concrete logs and values.
- `app/` is the unverified edge: the environment, the file system, SQLite
  (`rusqlite`), directory walks (`walkdir`), HTTP (`reqwest`), child
  processes, the machine's time zone, and the percentages shown as floats.
