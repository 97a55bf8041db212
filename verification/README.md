# aura

The core of Aura, a desktop music player, as a Verus library: every function
under `src/` carries a contract that Verus proves.

- `src/` — the verified library: lyric parsing and timing (`lyrics`), the
  lite player's state machine (`playback`, `snapshot`, `mini`, `tray`), the
  local stream server's request handling, range and caching rules
  (`request`, `stream`, `cache`), the HTTP proxy's header injection and
  decoding (`proxy`, `headers`, `codec`, `url`), downloads and local music
  (`download`, `local_music`), device tiering (`device_tier`,
  `system_stats`), updates (`update`) and the floating lyric window
  (`window`). Calls into `urlencoding`, `encoding_rs`, `base64`,
  `serde_json` and `lofty` stand behind small trusted wrappers whose
  contracts say what those crates do.
- `app/` — ordinary Rust around the library: the file system, the network
  (`reqwest`, `tokio`), tags on disk (`lofty`), the machine (`sysinfo`),
  audio output (`rodio`), and the serde forms of the library's types.
- `tests/` — tests of the library on concrete values.
