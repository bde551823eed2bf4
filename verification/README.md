# brightness-core

Monitor brightness control: the DDC/CI wire format, MCCS capability strings,
EDID blocks, VCP feature codes, and the decisions the desktop and command-line
front ends make around them, written in Verus with their behaviour stated as
contracts and proved.

Layout:

- `src/` — the verified library.
  - `ddc` frames (encode, decode, checksums) and their laws;
    `caps` the capability-string parser; `edid` the EDID parser;
    `vcp` feature codes and colour presets; `error` the error type.
  - `fetch` the fragment-by-fragment capability-string fetch, driven by a
    backend that does the I/O; `platform` the naming and decoding rules of
    the platform backends.
  - `cli` the command line's own rules and output lines; `menu` and `tray`
    the tray menu's identifiers and layout; `profiles`, `scheduler`,
    `foreground`, `autostart` and `commands` the desktop front end's logic.
  - `text` and `number` character-level helpers.
- `tests/` — tests of the library on concrete values.
- `app/` — the `mbc` command-line program: argument parsing, JSON output,
  the Linux backend's file and device I/O, and the floating-point parts
  (brightness percentages, the auto-dim ramp).
