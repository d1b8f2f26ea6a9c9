# pfauterminal

The logic of a GPU-rendered terminal emulator, written in Verus and proved
against its contracts.

- `src/` — the verified library. Each module states its behaviour in
  `requires`/`ensures` clauses over spec functions and views, and the
  properties that span several operations as public proof functions named
  `law_*`:
  - `hotkeys`: binding strings, platform defaults, user overrides, key matching;
  - `colors`: hex colors, the color scheme, the 256-color palette;
  - `widgets`: the editable text field;
  - `saved_sessions`, `ssh_config`, `ssh`, `ssh_dialog`, `ssh_session`: SSH
    sessions, the `~/.ssh/config` parser, the session form, authentication
    outcomes and the session loop;
  - `dropdown`, `tab_bar`, `tabs`, `hits`, `native_menu`: menus, the tab bar
    and the list of tabs;
  - `terminal_panel`: panel ids, grid sizes, key presses as bytes, emulator events;
  - `cells`: how a grid cell is painted, block characters, the glyph cache;
  - `shells`: the shells offered in the "+" menu;
  - `paths`: where the configuration and SSH files are, as raw path bytes so
    that a directory whose name is not Unicode is kept;
  - `controller`: the first decision on a window event, where keys and clicks
    go, menu actions, frame scheduling;
  - `screenshot`: row alignment and BGRA to RGBA conversion.
- `tests/` — tests of the library on concrete values.
- `app/` — the program around the library: it reads the JSON configuration
  files (creating the color file with its defaults when it is missing), offers
  writers that store a change to the sessions or hotkeys (`upsert_session`,
  `remove_session`, `touch_session`, `save_hotkeys`), and reads the environment
  and `/etc/shells`.

Rendering (GPU pipelines, text shaping, layout in floating point), the
window system, the PTY and the SSH network layer are not part of this crate.
