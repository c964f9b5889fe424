//! Core of an interactive terminal note browser: a keyword filter over an
//! immutable collection of notes, a scroll window over the matches, and the
//! two-mode session state machine, together with the line-oriented notes
//! format. Terminal handling, key decoding and file access live outside this
//! crate; everything here is specified and verified.

pub mod laws;
pub mod notes;
pub mod render;
pub mod state;
pub mod text;
