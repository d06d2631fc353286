# chronon

The decision logic of the Chronon desktop clock widget, verified with Verus.

- `src/font_library.rs` — which font files may be imported, how imported
  fonts are identified and named, and which entries are dropped from the
  library list (those whose file is missing, as the caller reports, or lies
  outside the library directory).
- `src/widget_window.rs` — the widget's lifecycle: the current
  configuration and which requests are refused.
- `src/updater.rs` — when update checks run and what each outcome is
  reported as.
- `src/desktop_layer.rs` — the parent and style chosen for the widget in
  the Windows desktop layer, and the text of its diagnostic log.
- `src/text.rs` — character classes and number formatting, each specified
  by a spec function.
- `app/` — the Tauri application around the library: commands, file and
  window-system calls, events.
- `tests/` — tests of the library on concrete values.
