# moq_secure

End-to-end encrypted and signed media payloads for Media over QUIC: a frame
format with ChaCha20-Poly1305 encryption, optional Ed25519 signatures and a
lease system for unsigned frames, plus the key handling and session logic of
the secure chat built on it. The library is written in Verus and proved
against its contracts.

## Layout

- `src/wire.rs` — the frame format: header, parsing, serialization, digest,
  the signature/lease rules, `encrypt_frame` and `decrypt_frame`.
- `src/legacy.rs` — the earlier frame format with a signature slot in the
  header.
- `src/crypto.rs`, `src/nonce.rs` — SHA-256, ChaCha20-Poly1305 and Ed25519
  as used here, and the per-frame nonce.
- `src/key_store.rs` — AEAD keys by key id, decoded from hex or Base64.
- `src/chat.rs` — chat keys, publisher and subscriber sessions.
- `src/engine.rs`, `src/ui_model.rs` — the decisions of the chat engine and
  of the chat window.
- `src/legacy_chat.rs` — the interactive shell's commands and state.
- `src/util.rs`, `src/text.rs`, `src/encoding.rs`, `src/codec.rs`,
  `src/random.rs` — names, times, shell quoting, text and byte helpers.
- `tests/` — scenario tests, including frames built independently of the
  library.
- `app/` — the command line programs: the secure chat (`publish` /
  `subscribe`) and the interactive shell (`legacy-shell <url>`), with the
  network I/O over `moq-native`.
