# meetily_core

The verified core of a local-first meeting assistant, written in Verus.

`src/` holds the library; every function in it carries a contract that
Verus proves:

- `reconcile` — removal of microphone echoes of system-audio speech;
- `diarization` — the per-source speaker rosters of live transcription;
- `calendar` — `.ics` parsing, meeting detection and readiness reports;
- `search`, `knowledge` — full-text query preparation, match snippets and
  cited, extractive answers;
- `artifacts` — Markdown renderings, Obsidian notes and export plans;
- `hooks`, `speakers`, `summary`, `cli` — validation, defaults and replies of
  the application's commands, and the routing of the local MCP server;
- `text`, `json`, `instants`, `ids` — text, JSON, time and identifier
  helpers, including the calls into `chrono` and `uuid`.

`app/` is the `meetily-cli` program and the database, file and audio work
around the library (SQLite through `sqlx`, JSON through `serde_json`, and the
floating-point voice features used for speaker labelling).

`tests/` exercises the library on concrete values.
