//! Core model of a DAW user interface: musical time, notes, clips and
//! tracks, the editing operations applied to them, and their undo history.

pub mod time;
pub mod ids;
pub mod midi;
pub mod track;
pub mod project;
pub mod commands;
pub mod seq_facts;
pub mod undo_actions;
pub mod undo;
pub mod snap;
pub mod selection;
pub mod clipboard;
pub mod strings;
pub mod browser;
pub mod file_loader;
pub mod demo_data;
pub mod editor_state;
pub mod app_data;
pub mod note_selection;
pub mod app_control;
pub mod clip_ops;
pub mod interaction;
pub mod engine_clip;
pub mod shortcuts;
pub mod piano_mouse;
pub mod clip_gestures;
pub mod app_event;
pub mod fit_checks;
pub mod mock_engine;
