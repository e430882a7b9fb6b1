//! Verified core of a terminal music tracker: the song model, its binary
//! file format (with upgrades from older format versions), note editing,
//! the editor's cursor and playback decisions, and the WAV header layout.

pub mod music;
pub mod upgrade;
pub mod roundtrip;
pub mod editor;
pub mod instrument;
pub mod wav;
pub mod screen;
