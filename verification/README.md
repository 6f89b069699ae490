# foggychat

A verified library for FoggyChat, a direct-messaging system with its own small
text protocol (FCTP), and the programs around it.

- `src/` is the library, written in Verus and proved: the message format and its
  parser, the text and binary encryption envelopes, the X25519 +
  XChaCha20-Poly1305 end-to-end envelope, the clients' sessions and key tables,
  the reassembly of frames, the key exchange, and the server's routing and
  commands. Calls into the cryptography, Base64, regular-expression and UUID
  crates go through small trusted wrappers whose contracts say what the crates'
  sources and documentation show. XChaCha20-Poly1305 panics on the lengths that
  pass its length check but run its block counter out; those are kept out of the
  wrappers' inputs, and the library reports them as a stop of the connection where
  it cannot rule them out.
- `tests/` runs the library on concrete values.
- `app/` holds the programs: the server, the command-line client, and the two
  graphical clients' connections driven from a terminal. They do the sockets,
  timers and printing, and leave every decision to the library.

Modules: `fctp_text` (the message text), `text` (characters, lines, numbers),
`crypt` (the envelopes and the trusted primitives), `protocol_utils` (the desktop
client), `gui_client` (the simple graphical client), `cli_client` (the
command-line client), `server`.
