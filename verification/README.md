# latch

A transparent terminal session manager: run programs in sessions that keep
going when you walk away, and attach and detach from them.

## Layout

- `src/` is the verified library (Verus):
  - `session/ring_buffer.rs`: the scrollback history, a fixed-capacity ring
    buffer that keeps the most recent bytes, and its on-disk image.
  - `session/mod.rs`: session metadata, file layout, id generation and
    resolution of a name or id prefix to one session.
  - `server/`: message framing on the socket and the server's decisions for
    each client message.
  - `commands/`: the decisions behind `list`, `rename`, `detach`, `kill`,
    `new` and `attach`.
  - `tui/`: the picker's state, its key handling, and the text it draws.
  - `listing.rs`: the order sessions are listed in; `text.rs`: character
    helpers.
- `app/` is the program around it: command-line parsing, files, sockets,
  the PTY, the terminal UI and message encoding.
- `tests/` exercises the library.
