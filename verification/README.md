# mtga_stats

The logic of an MTG Arena companion app, verified with Verus: it reads
MTGA's `Player.log` as it grows and keeps per-user match statistics.

Layout:

- `src/` — the verified library.
  - `text`: character-level string functions (search, trim, split,
    number parsing) with their specifications.
  - `json`: the JSON values the parsers read, and the serde_json calls
    that produce them.
  - `segmenter`: log lines → chunks, one per `[UnityCrossThreadLogger]`
    marker.
  - `router`: chunks → game events; notices the local user in chunk
    headers and resets the game parser when a match starts.
  - `parser/`: `match_state` (match start and end), `course_data` (deck
    snapshots), `gre_message` (zones, zone transfers, commanders and
    commander tax, game numbering, die rolls).
  - `event_sink`: game events → database writes and synthesized events
    (deck correlation, events buffered until a user is known).
  - `cards`: the card database (names, tokens, lands, mana costs).
  - `records`, `settings`, `tailer`, `mtga_process`: the decisions behind
    the stats database, the settings panel, the log tailer and the
    process check.
- `app/` — the desktop app around the library: Tauri commands, threads,
  SQLite, the file system.
- `tests/` — tests of the library on concrete inputs.

Each module states its contracts over spec functions; the `law_*` proof
functions state properties that span several calls.
