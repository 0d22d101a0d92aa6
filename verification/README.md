# sneaker_core

The decisions and texts of the sneaker reader, written in Verus and proved
against their contracts:

- `rewrite`: links to `sneakerweb.localhost` and `<64 hex>.localhost` in
  served text are rewritten to point back into the reader.
- `routing`, `urls`: which reply a `sneaker://` or `http://*.localhost`
  request gets, and where the content view is sent.
- `replies`: status, headers and body of each reply.
- `api`: routes and responses of the launcher's import API.
- `progress`: import phases, progress reports and the polled status.
- `session`, `uuid`: ports, session and temporary file names, identifiers.
- `text`: the character-level scanning the others are built on.

`app/` holds the programs around the library: the command-line launcher
(`main.rs`) and the reader window (`shell.rs`, with `webview2.rs` for
Windows). They do the I/O and hand plain values to the library.
