# multica_filter

Compact renderings of the `multica` CLI's output, for agents that read it,
with contracts proved by Verus.

- `src/text.rs` — character-level helpers (truncation with dots, padding,
  decimal rendering, joining, trimming, line splitting, UTF-8 byte prefixes).
- `src/json.rs` — JSON values read through `serde_json`, viewed by their place
  in the parsed document.
- `src/clock.rs` — integer parsing, the date and clock parts of timestamps,
  rough durations, and the timestamp pattern searched with `regex`.
- `src/tables.rs` — the issue table, the issue summary and the run table,
  rendered from plain field values.
- `src/issue.rs` — `multica issue`: routing of the verbs and the `list`, `get`
  and `runs` filters.
- `src/workspace.rs` — `multica workspace`: routing and the `list` filter,
  whose columns are split at runs of two or more spaces.
- `src/multica_cmd.rs` — top-level routing and dispatch to the filters.
- `src/plan.rs` — the invocation a command comes down to.
- `src/laws.rs` — properties of the library as a whole.
- `app/` — starts the `multica` process and writes to the terminal.
