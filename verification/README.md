# owl_control

The decision-making core of OWL Control, a recorder of game control data,
written in Verus and proved against its contracts.

`src/` is the verified library:

- `games` — which games may not be recorded, matching executable names, and
  the published games list (sorting, de-duplication, markdown, page splicing).
- `recording` — classifying a recording folder from the marker files it holds,
  listing a folder's recordings newest first, paused uploads.
- `progress` — the state of a multipart upload and its progress file records.
- `upload` — resuming, chunk preparation and hashing, session expiry, the
  server's completion answer, archive names.
- `recordings` — the upload tracker: uploads and local recordings merged
  newest first, the date filter, and the figures shown.
- `recording_state` — the recording state machine: input events, periodic
  checks, and what each transition does.
- `app_state` — foreground game checks, hotkey rebinding, offline mode and its
  retry loop, API key validation outcomes.
- `updates` — which release an update notice offers.
- `sort`, `text`, `clock`, `constants` — stable sorting, string helpers, the
  system clock, shared constants.

`app/` is ordinary Rust around it: file and network I/O, JSON, the tar
archive, Steam library discovery, the event loop's effects, and the parts that
compute in floating point. `tests/` exercises the library.
