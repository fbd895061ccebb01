//! Verified core of the Ankhimate editor: key bindings, the operator registry,
//! undo/redo over commands that state what they do, the rig's structural
//! edits, operator arguments, and the smaller pieces of editor logic.

pub mod args;
pub mod ids;
pub mod keymap;
pub mod keys;
pub mod history;
pub mod registry;
pub mod text;
pub mod timeline;
pub mod clipboard;
pub mod doc;
pub mod operators;
pub mod weights;
pub mod config;
pub mod autosave;
pub mod edit_router;
pub mod fileops;
pub mod plugins;
pub mod selection_sets;
pub mod app_state;
pub mod names;
pub mod chrome;
pub mod rig;
pub mod bbox;
pub mod clip;
pub mod mesh;
