# entangled-manager

The manager of a desktop virtualisation product: it finds machines, disks and saved
sessions in a directory, starts and stops the engine that runs them, and keeps one window
informed. Everything it decides is in `src/`, written and proved with Verus; everything
that touches the host is in `app/`.

## Layout

- `src/` — the verified library. Each operation takes what the host said as plain values
  (which files are there, what a command printed, what time it is) and says in its
  contract what the manager then shows, asks for or starts.
  - text, paths, sorting, tables: `text`, `paths`, `sorting`, `table`, `host`
  - the domain: `profile`, `discovery`, `snapshots`, `settings`, `launcher`, `backend`,
    `process`, `metrics`, `update`, `wslengine`, `hostcheck`, `diagnose`, `picker`,
    `editor`, `console`, `disk`, `run_vm`
  - the application: `state`, `app`, `launching`, `installing`, `storage`, `moving`,
    `dialogs`, `actions`, `mocking`, `mock`, `startup`
  - what is shown: `wording`, `cards`, `surfaces`, `forms`
- `tests/` — the same contracts on concrete values.
- `app/` — the window, the threads, the children and the files, in ordinary Rust. Two of
  its files call sibling crates of the product's workspace: `workspace.rs` (profiles, disk
  images, sessions, WSL) and `vmhost.rs` (the hypervisor and its devices).

## Conventions

- A ghost view stands beside each type that holds text, so contracts compare sequences of
  characters.
- The host is a parameter: every rule that differs between operating systems takes a
  `Host` and holds for all of them.
- Times are milliseconds of a clock that the caller reads; sizes are bytes.
