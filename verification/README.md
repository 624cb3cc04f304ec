# jkterm

A GPU-drawn terminal emulator whose core is verified with Verus.

## Layout

- `src/` — the verified library.
  - `model.rs`: the abstract state of a terminal (`TermState`) and, as spec
    functions, what every operation does to it; `TermState::wf` is the
    invariant that all operations keep (grid shapes, tab stops, bounded
    scrollback, scroll region and cursor on the screen).
  - `terminal.rs`: the executable `Terminal`, each operation proved to act on
    its view exactly as the model says.
  - `parser.rs`: the dispatcher for printed characters, C0 controls, and
    ESC, CSI (including SGR colours) and OSC sequences. Operations that
    would run out of range are refused, leaving the terminal unchanged.
  - `input.rs`: the bytes that a key press sends to the shell.
  - `display.rs`: what is drawn: the screen's text, cells with a background,
    the cursor, rectangle triangle indices, the font family to use.
  - `laws.rs`: properties relating several operations (save/restore,
    alternate screen round trips, insert/delete lines, erasing, tabs,
    resizing, scrolling).
- `tests/` — tests of the library on concrete values, including whole byte
  streams fed through `vte`.
- `app/` — the program: window and GPU drawing (winit, wgpu, glyphon), the
  pseudo-terminal and shell (portable-pty), and the event loop.
