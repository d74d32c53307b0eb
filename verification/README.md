# deluge_rpc

A client library for the DelugeRPC protocol, with the protocol's logic verified
in Verus.

- `src/rencode/` — the rencode format: the value model (`value.rs`), the format
  as spec functions (`spec.rs`), a token-by-token encoder (`writer.rs`), the
  decoder (`reader.rs`), and the proof that decoding an encoding gives the value
  back (`lemmas.rs`).
- `src/encoding.rs` — zlib compression of message bodies (through
  `cloudflare-zlib`).
- `src/frame.rs` — the version byte and length that frame each message.
- `src/types/` — infohashes (hex through the `hex` crate), the protocol's
  enums, events, the daemon's errors (add-torrent messages through `regex`),
  and the reading of messages from decoded values.
- `src/rpc.rs` — messages with an event's data left undecoded.
- `src/dispatch.rs` — the requests that wait for an answer.
- `app/` — the TLS session, the receiving task, serde glue and the daemon's
  methods; it is ordinary Rust around the library.
