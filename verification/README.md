# yal

The core of YAL, a keyboard launcher for macOS, as a library whose
behaviour is stated in `requires`/`ensures` contracts and proved with Verus.

- `src/` — the verified library: the display/space/window inventory and
  its application tree, window classification, focus and space-switching
  decisions, the palette's commands, themes, shortcuts, configuration
  paths, and the services that plugins use (the `yal.*` modules: the
  JSON key-value store, HTTP request
  options and limits, sockets, base64, prompts, pending requests).
- `tests/` — tests of the library on concrete values.
- `app/` — the edges: the Lua configuration, theme and plugin files
  (`config.lua`, `themes.lua`, `plugins.lua`) run with mlua and read with
  serde, the environment, plugin stores on disk, JSON output, and window
  placement on floating-point screen coordinates.

Calls into `std` and outside crates that the proofs rely on are made
through a few wrappers marked `#[verifier::external_body]`; each states
what it assumes in its doc comment.
