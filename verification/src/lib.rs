//! A falling-glyph "digital rain" animation for text terminals.
//!
//! The crate holds the cell buffer and its per-frame update, the glyph
//! tables the animation draws from, the encoder that turns a buffer into
//! terminal control sequences, and the reading of the command line.

pub mod charset_gen;
pub mod choices;
pub mod color;
pub mod command;
pub mod encoder;
pub mod options;
pub mod rain;
mod random;
pub mod screen;
pub mod text;
pub mod timing;
pub mod width;
