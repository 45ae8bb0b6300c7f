# whatnull

The verified core of WhatNull, a Linux desktop client for WhatsApp Web,
written in Verus.

- `src/` is the library. Every function carries a `requires`/`ensures`
  contract that Verus proves: configuration validation and repair, the
  navigation policy of the remote webview, notification privacy, the
  per-profile storage layout and the secrets file, XDG path resolution and
  the single-instance handshake, and metadata inspection and stripping of
  JPEG, PNG and PDF attachments. Calls into `img-parts`, `lopdf`, `url` and
  `serde_json` go through small trusted wrappers whose contracts are stated
  next to them.
- `tests/` runs the library on concrete values.
- `app/` is the Tauri program around the library: windows and webviews,
  commands, file and socket I/O, serialization, and `ffmpeg`.
