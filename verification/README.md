# comfyui_desktop

The logic of a desktop front end for ComfyUI, written in Verus with its
behaviour stated in `requires` / `ensures` contracts and proved.

- `src/` is the verified library: accounts and sessions (`auth`), the
  multi-user prompt queue (`prompt_queue`), GPU workers (`gpu_manager`),
  websocket event handling (`ws_events`), process launch lines (`process`),
  workflow templates (`templates`), image metadata in PNG, JXL and SwarmUI
  form (`png_meta`, `jxl`, `metadata`, `swarm`, `a1111`), model panels and
  file hashing (`client`), gallery requests and thumbnails (`uri`, `media`),
  the interrogator's tag list (`interrogator`) and notifications.
  Calls into outside crates (sha2, argon2, png, image, flate2, csv, ...) go
  through small trusted wrappers whose contracts say what the crates
  document; everything around them is verified.
- `app/` is a command-line front end: file, process and network I/O around
  the library.
- `tests/` runs the library with the real outside crates linked.
