# vibebar

Three status-bar modules (backlight, volume, weather) for a GTK4 bar on
Sway. The decisions and the text they show are a library verified with
Verus; the widgets, the sound-server connection and the network requests
are a thin layer around it.

- `src/` — the verified library:
  - `text.rs`: searching, decimal formatting (`{}`, `{:02}`, `{:>3}`) and
    `i32` parsing, stated over `Seq<char>`;
  - `json.rs`: JSON values as plain data, parsed by `serde_json`, and the
    lookups of `serde_json::Value` (`get`, `[key]`, `[i]`, `as_str`, `==`);
  - `command.rs`: commands to run, as program and arguments;
  - `brightness.rs`, `volume.rs`, `weather.rs`: each module's commands,
    labels, tooltips and the decisions of its update loop.
- `app/` — GTK widgets, threads, the PulseAudio main loop, HTTP and process
  I/O, and the two computations done in floating point (scroll direction,
  backlight percentage).
- `tests/` — tests of the library.
