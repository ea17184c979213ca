# opencode_config

Registration of a plugin in the OpenCode TUI configuration (`tui.json`, `tui.jsonc`), written
and proved in Verus.

- `src/` decides. It looks a plugin up in a configuration text, adds it, takes it out, and says
  step by step how an edited file takes the place of the old one and how a Windows access list
  is copied. It performs no input or output.
  - `entry`, `document`, `listing`: plugin entries, the JSONC syntax tree, the plugin list of one
    text.
  - `config`: both files of a directory.
  - `write`, `stage`, `platform`: replacing a file as a whole.
  - `dacl`: copying an access list.
  - `laws`, `write_laws`: what holds of these functions taken together.
- `app/` is the part that touches the disk. It carries out what `src/` asks for.
- `tests/` runs the library on configurations held in memory.

What the proofs take on trust are the functions of `jsonc_parser`, `serde_json` and `std`, and
the constants of `windows_sys`, that the code calls. Each stands in `src/` behind an item whose
comment says what is claimed of it.
