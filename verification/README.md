# chrono_term

The core of CHRONO, a semantic terminal emulator, as a verified library: every
function in `src/` carries a contract that Verus proves.

## Layout

- `src/screen.rs` and `src/screen/`: the screen buffer and its model
  (`ScreenModel`): writing, scrolling, erasing, modes, alternate screen,
  scrollback view, prompt marks, hyperlinks, selection, inline suggestions,
  resize with reflow, and the escape-sequence handler (`ansi.rs`).
- `src/cell.rs`, `src/attributes.rs`, `src/cursor.rs`: cells, colours and
  renditions, the cursor.
- `src/detector.rs`, `src/context.rs`: what a line holds (logs, errors, JSON,
  tables, stack traces, file listings, source references).
- `src/history.rs`: the command history behind suggestions.
- `src/input.rs`, `src/mouse.rs`: keys, shortcuts, mouse reports, wheel and clicks.
- `src/paint.rs`, `src/theme.rs`: cell colours and pixel geometry for the renderer.
- `src/ls_colors.rs`, `src/config.rs`: `LS_COLORS` and settings.
- `src/laws.rs`: properties that span several operations, proved once.
- `src/text.rs`, `src/seqs.rs`: text and sequence helpers; the calls into `std`,
  `unicode-width` and `regex` sit behind small trusted wrappers with stated
  contracts.
- `app/`: the window, the PTY, fonts and pixels, configuration files; it drives
  the library.
- `tests/`: tests of the library on concrete values.
