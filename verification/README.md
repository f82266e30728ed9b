# razermapper

An input-device remapper and macro system for Linux: a privileged daemon that
discovers and grabs input devices, records and plays macros through a uinput
virtual device, and answers a GUI over a Unix socket.

The decisions of the system are a library verified with Verus (`src/`); the
programs around it (`app/`) do the socket, file and device work and draw the
GUI.

## Layout

- `src/` — the verified library
  - `protocol.rs`: the requests, responses, devices and macros, with their models
  - `framing.rs`: length-prefixed frames and the macro cache format
  - `client.rs`, `gui_client.rs`: the IPC client's settings, retry decisions and reply reading
  - `engine.rs`: the macro engine (macros, recording, triggers, execution bookkeeping)
  - `daemon.rs`: the daemon's state and its answer to each request
  - `security.rs`: authentication tokens and privilege state
  - `device.rs`: the device table, grab decisions and name parsing
  - `injector.rs`: the input events that each injected action writes
  - `config.rs`: the configuration defaults, paths and profile tables
  - `gui.rs`: the GUI's state and what each message does
  - `strmap.rs`, `text.rs`: a string-keyed table and text utilities
- `tests/` — tests of the library
- `app/` — the daemon, the GUI and the grab tester (`main.rs`)
