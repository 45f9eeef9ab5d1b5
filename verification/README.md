# trade_analyst

Deterministic analytics for trading journals: CSV ingestion with format
auto-detection, streaks, behavioral counters, chart and report building
blocks — written in Verus, with every function of the library proved
against its `requires` / `ensures` contract.

## Layout

- `src/` — the verified library
  - `text.rs` — character-level helpers (trim, ASCII lower-casing, string building)
  - `shared.rs` — trade direction and market session parsing
  - `config.rs` — CSV, session-window, vault and output settings; mapping overlays
  - `parser/` — CSV ingestion: `table` (decoding, delimiter detection, the csv
    reader), `fields`, `header`, `numbers`, `dates`, `columns` (content-aware
    column mapping), `rows` (decimal separator detection, row validation),
    `ingest` (the whole table to trade rows)
  - `streaks.rs` — winning/losing streaks and stride sampling of long series
  - `order.rs` — chronological order of trades (a verified stable sort)
  - `behavior.rs` — the counting rules behind the behavioral flags
  - `charts.rs` — chart definitions rendered to obsidian-charts YAML blocks,
    and the development charts over the analysis history
  - `reports.rs` — AI placeholders, labels and the Markdown document
  - `dashboard.rs` — the analysis note: its sections in their fixed order,
    tables, charts and AI blocks, from figures already formatted
  - `exchange.rs` — plain exchange records and the history file location
- `tests/` — tests of the library
- `app/` — the command-line program: file and vault I/O, argument handling,
  serde forms of the records, and the floating-point statistics and scores,
  with the formatting of the report figures

Calls into `chrono` (date/time parsing), `csv` (record splitting) and `std`
(`str::from_utf8`, `str::to_uppercase`, `String::push`) go through small
trusted wrappers whose contracts name or state their results.
