# rakukan (verified core)

The logic of the rakukan Japanese input method as a Verus library: every
function in `src/` carries a contract that Verus proves, and the properties
that span several functions stand as public proof functions (`lemma_*`).

- `src/` — the library: kana and character-kind conversions (`kana`,
  `text_util`), numerals and the protection of digits around the language
  model (`numerals`, `digits`, with the laws of combining run candidates in
  `digit_laws`), the model's prompt and output cleaning (`kanji`), key
  bindings (`keymap`), the user dictionary (`user_dict`), the system
  dictionary builder and its binary format (`dict`, with its laws in
  `dict_laws`), the input method's state (`ime`) and the session state
  machine behind its key handlers (`session`: Shift+Left/Right range
  selection, conversion with punctuation blocks, raw commit, typing,
  Escape, Backspace, punctuation, F6 to F10, mode keys),
  diagnostics and log rotation (`diag`), the backend choice (`gpu`), the
  engine host's pipe name (`rpc`), Windows text forms (`wide`), and shared
  text helpers (`text`).
- `tests/` — tests run against the compiled library.
- `app/` — the dictionary builder program and the file, environment and
  process plumbing around the library (key map and user dictionary files,
  paths, backend detection, log rotation, the diagnostics ring), and the
  driver that performs the session's actions against a text-service front
  end (`session_driver`).

Outside code that the library calls (`unicode-normalization` and a few `std`
text functions) stands behind small wrappers in `text.rs` and `kana.rs`,
each with the contract that the proofs rely on.
