# holo

A terminal companion for Android app development: logcat with tag, text
and level filters, the app's SQLite databases with a SQL prompt, its files,
crashes and ANRs, runtime permissions, Perfetto traces, disk and network
activity, and quick device commands, all over `adb`.

## Layout

- `src/` is the library, written in Verus and verified: the parsers of
  `adb` output, logcat and the network events, the state machine of each
  panel, the key handling of the whole screen (`App::handle_key`), what
  each action does (`dispatch`) and what each result from the device does
  (`App::receive`). Each function states what it does in its `requires`
  and `ensures`; the laws that span several calls are public proof
  functions (`law_*`).
- `app/` is the terminal front end: the event loop, drawing with ratatui,
  the threads that run `adb`, the clipboard, the editor and the local
  server that hands traces to ui.perfetto.dev. It carries out the effects
  that the library returns and feeds back what the device answers.
- `tests/` holds the tests, run against the compiled library.

## Running

`adb` must be on the `PATH`; `scrcpy` is needed for mirroring the device.
