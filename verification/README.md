# wsl_interop

Path handling at the boundary between a WSL distribution and its Windows host,
written in Verus: what is translated, how, and what is done with the answers is
proved against contracts in `src/`; `app/` reads the environment, runs
`wslpath`, touches the filesystem and sequences the rollout lookup around those
calls.

- `src/path_uri.rs` — `file://` URIs held decoded, the percent encoding, and
  the Posix/Windows path conventions.
- `src/sandbox.rs` — MCP sandbox metadata and its translation for a Windows
  peer (literal paths, glob prefixes, fail-closed globs).
- `src/wsl_paths.rs` — which paths go to `wslpath` (image attachments, Windows
  stdio servers) and what is done with its answers.
- `src/project_paths.rs`, `src/json.rs` — admission of `\\wsl$` and
  `\\wsl.localhost` project roots in JSON-RPC requests.
- `src/desktop_image_media.rs` — inline images for Windows Desktop connected
  from inside WSL.
- `src/rollout_path_cache.rs` — the bounded most-recently-used cache of rollout
  locations.
- `src/installed_listing.rs` — selection of installed and suggested plugins.
- `app/` — the process side: environment, `wslpath`, the filesystem, JSON.
