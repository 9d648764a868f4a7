# bluetty

A bridge between Bluetooth SPP connections (BlueZ `Profile1`) and
PTY-backed Linux sessions. The decisions of the bridge are written in Verus
and verified; the daemon around them is ordinary Rust.

- `src/` — the verified library
  - `config.rs`: built-in defaults, the INI settings that override them
    (read through `configparser`), and the value parsers.
  - `session/mod.rs`: the session table (ids, lifecycles, shutdown requests,
    removal), capacity, shutdown settling and signal targets.
  - `session/getty.rs`: the session command — template split with
    `shell_words`, placeholders `{tty}`, `{addr}`, `{name}`, `{host}` filled in.
  - `session/io_forward.rs`: the forwarding pump as a transition function
    from phase and event to next phase and action, and `write_all` stepping.
  - `bluez/`: device facts and the profile registration options.
  - `text.rs`: trimming, ASCII lower-casing, replacement and prefix stripping
    on characters.
- `app/` — the daemon: D-Bus, PTYs, processes, signals and tasks, driving the
  library's functions.
- `tests/` — tests of the library on concrete values.
