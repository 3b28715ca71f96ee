//! Beer Mouse Clicker: the verified core of a keyboard/mouse macro tool.
//!
//! The task model, its storage encoding, the settings store, the recorder,
//! the step executor's decisions and the human readable descriptions live
//! here; the window, the Win32 calls and the database file live in `app/`.

pub mod constants;
pub mod text;
pub mod lang;
pub mod taskcodec;
pub mod store;
pub mod config;
pub mod keys;
pub mod describe;
pub mod recorder;
pub mod chance;
pub mod pattern;
pub mod runner;
pub mod run_laws;
pub mod screen;
pub mod tasklist;
pub mod control;
pub mod edit;
