# daw_reaper

The decision logic of a REAPER backend for a DAW control protocol, written in
Verus: every function under `src/` carries a contract, and the laws that tie
several functions together are proof functions next to them.

Layout:

- `src/` – the verified library.
  - `text`, `strmap`, `menu`: character-level helpers (trimming, numbers,
    decimal and hex text, case mapping, splitting) and a small string map.
  - `action_registry`, `menu_layout`: registered actions, toggle states and
    the extension menu built from them.
  - `batch`: running a batch of instructions step by step, with
    fail-fast/skip rules and arguments taken from earlier steps.
  - `chunk`, `fx`, `fx_ops`, `fx_tree`, `fx_events`, `fx_state`: FX chain state
    chunks, stable node ids, container paths, enclosing and exploding
    containers, moves into and out of containers, the FX tree, change
    detection between polls, and restoring chain state.
  - `project`, `input`, `media`, `services`, `analysis`, `accessor`,
    `plugins`, `routing`, `main_thread`: the project tabs and undo blocks, the
    keyboard hook, items/takes/MIDI, the smaller services, MIDI analysis,
    audio accessor handles, the plugin loader, request routing and the
    main-thread queue.
- `tests/` – tests on concrete values, run against the compiled library.
- `app/` – the host side: the REAPER calls (through `reaper-medium` and
  `reaper-low`), dynamic loading of plugins, the batch driver and logging
  setup. It hands plain values to the library and performs what it decides.
