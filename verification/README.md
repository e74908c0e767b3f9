# LocalChat

An encrypted chat for a local network. One user hosts a room on TCP port 7777;
any number of others join it with the host's IP address. Everything that travels
after the key exchange is sealed with ChaCha20-Poly1305 under a key agreed on
with X25519.

- `src/` is the library, written in Verus: every function states in its contract
  what it returns or changes, and Verus proves it. The exceptions are the small
  functions marked `external_body`, and the two `assume_specification` items, that
  stand for functions of other crates and of `std`: Verus believes what they state,
  and the comment above each says what that is.
  - `crypto`: the key exchange and the sealed lines.
  - `protocol`, `event`: the texts inside the lines, and the events they stand for.
  - `server`: the room, and a client's connection as the host sees it.
  - `session`: the same connection as the client sees it.
  - `ui`, `input`, `render`: the chat window, its input line, and what it looks like.
  - `history`, `clock`: the log of a session, and the local time.
  - `setup`: the user's name and role, and the addresses.
  - `text`, `boundary`: the operations on text that all of these share.
- `app/` is the program around it: prompts, sockets, threads, files and the
  terminal.
- `tests/` runs the library on given values.

Keys in the window: Enter sends, PageUp/PageDown and Up/Down scroll, `/quit`, Esc
and Ctrl+C end the conversation. Each session is logged in
`~/.localchat/history/`.
