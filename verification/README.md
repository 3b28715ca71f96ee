# beer_mouse_clicker

A keyboard and mouse macro tool for Windows (酒要点点): a list of steps
(clicks, keys, moves, delays, image matches, messages, ...) that runs once or
in a loop, started and stopped by a hotkey, with recording, input locks, a
tray icon and start with Windows.

The logic is a Verus library, verified against its contracts:

- `constants`, `taskcodec`, `text`: the step model, its bit packing and the
  text format the task list is stored in (encode/decode round trips).
- `store`, `config`: the settings store and the typed settings, messages and
  images kept in it (what a read gives back of a write).
- `runner`, `run_laws`, `chance`, `pattern`: the task runner as a state
  machine from events to commands, and its laws (a stopped run finishes, a
  single pass stops after the last step, delays stay in range, ...).
- `recorder`: turning hook messages and keyboard snapshots into steps, and
  compressing recorded moves.
- `describe`, `keys`, `lang`: step descriptions, key names, the two
  interface languages.
- `edit`, `tasklist`, `control`, `screen`: the edit and add forms, list
  editing, hotkey and lock decisions, screen-area arithmetic.

`app/` is the Windows program around it (egui window, Win32 calls, SQLite
file, registry, tray); `tests/` runs the library on concrete values.
