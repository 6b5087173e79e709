//! Playback core of a lighting and sound console.
//!
//! The console resolves faders, stored cues, an override buffer, remote
//! control messages and audio tracks into one frame of 512 channel values
//! per tick and into orders for audio players.
//!
//! Levels are integers in thousandths (`level`), times are milliseconds.
//! Numbers that arrive in binary floating point are read from their bit
//! patterns (`ieee`). Whatever depends on the clock exists twice: a
//! function that takes the instant as an argument, and one that reads the
//! clock and hands it on.
//!
//! - `dmx_types`, `templates`: colors, channel functions, fixtures and the
//!   library of fixture templates.
//! - `executor`, `cue_list`: cues, executors, the fade state machine and
//!   the moving of cues between lists.
//! - `buffer`: the override buffer.
//! - `dmx_output`: the mixing pipeline.
//! - `console`, `interpreter`: the command line and what its commands do.
//! - `osc`: remote control.
//! - `audio`: the audio engine as a state machine.
//! - `ui`, `operations`, `keypad`: the state that the operator's surface
//!   shows, and what its buttons do to it.
//! - `text`, `search`, `listing`: words, numbers and lists.

pub mod audio;
pub mod buffer;
pub mod console;
pub mod cue_list;
pub mod dmx_output;
pub mod dmx_types;
pub mod executor;
pub mod ieee;
pub mod interpreter;
pub mod keypad;
pub mod level;
pub mod listing;
pub mod operations;
pub mod osc;
pub mod search;
pub mod templates;
pub mod text;
pub mod ui;
