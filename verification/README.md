# linedit

A small terminal text editor whose core is verified with Verus.

The text is a doubly linked list of byte lines. The lines live in an arena
(`LineHeap`) and refer to each other by address (slot number plus one, 0 for
"no line"). The editor itself never touches the terminal: each operation
appends `TermOp` commands to an output buffer, and the front end carries them
out in order.

Layout:

- `src/line.rs` – `Line` (bytes, capacity, links), the `LineHeap` arena, and
  the operations on a line by address.
- `src/list.rs` – `LineList`, the linked list over the arena, and `LineIter`.
- `src/controller.rs` – the editor: cursor movement, scrolling, Enter, the
  redraw plan and the handling of one input event, each specified by a spec
  function of the same name over `EditorView`.
- `src/keys.rs` – keys, input events, and the control / shift mappings.
- `src/data.rs`, `src/darea.rs`, `src/statics.rs` – file metadata, display
  state, redraw flags and debugging switches.
- `src/strings.rs`, `src/measure.rs`, `src/termop.rs` – number formatting,
  text width and centring (from the `console` crate), terminal commands.
- `app/` – the program: arguments, file reading, the crossterm terminal and
  the input loop.
- `tests/` – tests of the library.
