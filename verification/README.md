# autocapcut

A desktop tool that renders a batch of CapCut projects unattended, pre-processes
their drafts, and manages its license. The library in `src/` holds the logic,
verified with Verus; `app/` is the Tauri application around it.

- `src/sync.rs` — draft pre-processing: video follows audio, still images share the
  audio length, video follows subtitle timing; which drafts the rules can run on.
- `src/draft_json.rs` — `draft_content.json` as a `serde_json::Value`: reading the
  rules' model out of it, writing their edits back, and one project from the file's
  text to the text to store.
- `src/license/` — license status, offline grace period, server replies, the
  encrypted cache (AES-256-GCM under a PBKDF2 key), and the machine fingerprint.
- `src/automation/` — the batch render as state machines (the batch, maximizing
  CapCut, opening a project, recovering CapCut, waiting for its window), CapCut's
  windows, the export folder, the project list.
- `src/validation.rs`, `src/config.rs`, `src/detect.rs`, `src/notification.rs`,
  `src/tray.rs`, `src/text.rs` — configuration checks, settings, captures, texts.

Laws of the library are public proof functions named `law_*`.
