//! The state engine of a terminal emulator: the screens, cursor, attributes,
//! character sets and colors that the actions of an escape-sequence parser
//! change, with the key encoder that turns key presses into input bytes.
//!
//! `model` states what every operation does, over mathematical values;
//! `terminal` implements the engine and is verified against it; `laws`
//! proves properties that relate several operations.

pub mod buffer;
pub mod cell;
pub mod color;
pub mod keymap;
pub mod laws;
pub mod line;
pub mod model;
pub mod pty;
pub mod terminal;
