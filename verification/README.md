# ma_ui

The editing core of a digital audio workstation's user interface, written
in Verus: musical time, notes, clips and tracks, the editing operations on
them, their undo history, and the handling of the events the interface
sends. Every function under `src/` carries a contract that Verus proves,
except the few `#[verifier::external_body]` wrappers around uuid, midly,
dirs and std (`ids.rs`, `file_loader.rs`, `browser.rs`, `strings.rs`): their
contracts are trusted, and each states only what the outside source shows.

## Layout

- `src/time.rs`, `snap.rs`: ticks, bars and beats, quantisation and snapping.
- `src/ids.rs`, `midi.rs`, `track.rs`, `project.rs`: identifiers, notes, clips,
  tracks and the project that holds them, each with a mathematical view.
- `src/undo_actions.rs`, `undo.rs`: the undoable actions (with the law that
  reverting undoes applying) and the bounded undo/redo history.
- `src/app_data.rs`, `app_control.rs`, `note_selection.rs`, `clip_ops.rs`: the
  application state and its editing operations; each returns the effects
  (engine commands and the like) for the application to carry out.
- `src/app_event.rs`, `fit_checks.rs`: the event type, the verified handler
  that dispatches on it, and run-time tests of the conditions it needs.
- `src/piano_mouse.rs`, `clip_gestures.rs`, `interaction.rs`, `shortcuts.rs`:
  mouse gestures and keyboard shortcuts, after pixels have become ticks.
- `src/browser.rs`, `file_loader.rs`, `strings.rs`: the file browser's
  listing rules and reading MIDI files (through `midly`).
- `src/mock_engine.rs`, `engine_clip.rs`, `commands.rs`: the simulated engine
  and what the engine is sent.
- `app/`: a text front end: reads commands, turns pixels and floats into
  the library's values, runs the simulated engine thread over `rtrb` ring
  buffers, reads directories and files, and stores preferences with `serde`.
- `tests/`: tests of the library on concrete values.
