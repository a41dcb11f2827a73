# mouse_record

A desktop tool that records real mouse behaviour (moves, presses, releases,
wheel) and replays it in a loop with the recorded timing. This crate is its
verified core, written in Verus; `app/` is the Tauri shell around it.

## Layout

- `src/model`: recorded actions (fixed-point coordinates, each kept nearest
  to the pixel it was recorded nearest to), recordings and their format
  versions, replay options (the speed kept as its binary64 encoding, whose
  range the library checks; the driver divides the waits by it), the engine
  state and its shared atomic form.
- `src/recorder/worker.rs`: the recording worker, which compresses idle moves
  but keeps every drag move, press, release and non-zero wheel step; its
  step function `worker_step` and the laws about what is kept and how delays
  add up.
- `src/recorder/hub.rs`: routing of hook events (mouse events are recorded
  only while recording).
- `src/replay/engine.rs`: the replay engine as a state machine (`replay_next`)
  driven by the application: absolute scheduling, loops, pauses, stop and
  failure handling, and the release of every held button on every exit.
- `src/replay/runs.rs`: whole replays (`replay_run`): the progress reported
  over a run, that a finite replay nothing stops or fails completes, and
  that the speed changes only the waits.
- `src/input`: hotkeys (Ctrl+8, Ctrl+9) with press-edge debouncing, the
  classification of macOS tap events and Windows hook events, the
  replay-side controller trait and the scroll requests of the backend.
- `src/platform`: wheel conversions for macOS (pixels to lines) and Windows
  (notches).
- `src/hotkey.rs`: what a hotkey does in each engine state.
- `src/commands`: recording names, summaries and their ordering, state
  conflicts, replay request checks, the listener check and what a stop
  request does.
- `src/text.rs`: trimming, character classes, decimal rendering.
- `src/throttle.rs`: the rate limit of the notifications to the interface.
- `app/`: threads, the input hooks, enigo, files, serde and Tauri.
