//! The music-theory core of a fretboard trainer: the twelve pitch classes,
//! their names and parsing, and the note found at a fret above an open string.

pub mod note;
pub mod fretboard;
pub mod text;
pub mod session;
