# fro

The settings logic of the `ag` admin console's configuration pages, written
in Verus and proved against its contracts.

- `src/text.rs` — characters, trimming, searching and building strings.
- `src/numbers.rs` — parsing integers as `str::parse` does, printing them.
- `src/order.rs` — the character order of text keys.
- `src/runtime_settings.rs` — the runtime-settings table: grouping by
  category, the input controls, what a save or clear leads to.
- `src/chunker.rs` — pipeline presets and stage lists, the chunker form and
  the per-corpus overrides it saves.
- `src/corpus.rs` — the per-corpus form and the drift check against the last
  index build.
- `src/embedding.rs`, `src/io_uring.rs`, `src/overview.rs` — the smaller pages.
- `app/` — the float-valued parts, which stay outside the verified library.
- `tests/` — scenarios on concrete values.
