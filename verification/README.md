# heimdallr

Reads the system light/dark theme and runs a command when it changes. A host
with no system theme is an error that says why, never a default.

- `src/` is the library, verified with Verus. `wsl` judges what `/proc` and
  `reg.exe` give under WSL (escaped mount fields, `reg.exe query` output),
  `watch` decides what each reading or change means for the command, and
  `text` states and computes the character-level work (lines, fields,
  trimming, ASCII case) they share. `std_calls` holds the two standard
  library calls that are taken on their documented behaviour.
- `app/` is the command line: argument parsing, the file and process work,
  and the `dark_light` backend on macOS, Windows and Linux.
- `tests/` runs the library on concrete inputs.
