# telegram_gui

The core logic of a native Telegram desktop client, verified with Verus.

* `src/` — the library, verified by Verus: its public functions carry
  `requires` / `ensures` contracts that Verus proves (the small trusted
  wrappers named below are taken as given, and a few private helpers state
  nothing beyond their types). It covers configuration layering, the secret-store
  abstraction and the Keychain outcomes, the encrypted media cache (blob
  location, framing, key handling, least-recently-used eviction), session
  persistence and update-state merging, row codecs and full-text query
  escaping, the messaging service decisions (local ids, delivery,
  backfill, reactions, search ranking), the synchronization engine's
  decisions (the steps of a cycle, the events an update publishes once
  stored, backoff, previews, unread counting, deletion grouping), and the
  login flows (token bookkeeping, the QR login steps and token answers). Calls into `sha2`, `chacha20poly1305`,
  `base64`, `toml`, `keyring` and `grammers` go through small trusted
  wrappers (`#[verifier::external_body]`) whose contracts are stated next to
  them; Verus takes those contracts as given.
* `tests/` — tests of the library on concrete values.
* `app/` — the desktop program around the library: Tauri shell and
  commands, SQLite over SQLx, the grammers client, the async sync task and
  the file-system side of the cache.

Verify with `verus` on `src/lib.rs`; the tests run with `cargo test`.
