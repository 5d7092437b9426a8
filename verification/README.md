# hjkl

A small macOS and Windows keyboard remapper: tap the layer key (`;` by
default) alone to type it, hold it with `h`/`j`/`k`/`l` for the arrow keys,
and hold it with any other key for the platform shortcut modifier (Command on
macOS, Control on Windows) plus that key.

## Layout

- `src/` is the library, written in Verus. Every function there carries a
  contract; Verus proves all of them except two small wrappers in `text.rs`
  (`lowercase_of` over `char::to_lowercase` and `push_char` over
  `String::push`), whose contracts are trusted:
  - `layer.rs`: the layer state machine, as a step function `layer_step` over
    `LayerView`, with its laws (tap replays the key, held layer maps
    `h`/`j`/`k`/`l` to arrows, tracked arrows always come back up, ...).
  - `keys.rs`, `keymap.rs`: per-platform key codes and name tables, layer-key
    parsing and validation, modifier flags.
  - `cli.rs`: argument parsing, specified by `parse_args_spec`.
  - `mac_tap.rs`, `win_hook.rs`: what the macOS event tap and the Windows
    low-level hook do with each keyboard event.
  - `mac_service.rs`, `win_service.rs`, `report.rs`, `command.rs`: paths,
    the LaunchAgent plist, health records, the scheduled task's command line
    and every message the management commands print.
  - `text.rs`: character-level helpers (decimal numbers, trimming, splitting)
    with their specifications.
- `app/` is the executable: argument handling, file and process I/O, the
  CoreFoundation / `windows-sys` calls. It performs what the library decides.
- `tests/` runs the library on concrete inputs.
