# pocketdeck

The logic of a set of pocket tools, written and proved in Verus: a modal code
editor (rvim), a command terminal with a remote-screen emulator, an HTTP
client, a tailnet device browser, a JSON explorer, a regex tester and two small
demos.

- `src/` is the library. Every function states what it computes over a
  mathematical model of its data (`Seq<char>` texts, view structs whose names
  end in `V`), and the laws that tie functions together are public proof
  functions named `law_*`.
  - `rvim/`: text buffers with undo, the modal engine (`vim/`), search
    patterns, fuzzy matching, a Rust highlighter, the file finder and explorer,
    the virtual file store, sessions, and the drawing of the character grid
    (`ui/`).
  - `terminal/`: line editor, calculator grammar, number bases, commands, line
    wrapping, scrollback, the VT screen, remote sessions and the key toolbar.
  - `net/`: requests and replies, calendar arithmetic, the device list.
  - `json.rs`, `regexp.rs`, `hello.rs`, `demo.rs`: the smaller tools.
  - `text.rs`, `utf8.rs`, `unicode.rs`, `color.rs`, `palette.rs`,
    `keyboard.rs`, `host.rs`: shared ground.
- `app/` turns the library into egui panels: events in, painted cells out, and
  the calls to the hosting program.
- `tests/` runs the library on concrete values.

Functions marked `external_body`, and the `assume_specification` items, are the
places where the library relies on `std` or an outside crate; the comment above
each says what is taken on trust.
