//! A terminal ASCII-art video player core.
//!
//! The library converts raw decoded RGB frames into character grids, keeps a
//! bounded buffer of recent frames, and drives playback as a state machine:
//! commands from the keyboard move a cursor through the frame list, pace the
//! per-frame delay, and mirror every transition onto an optional audio track.
//! Decoding, terminal drawing and audio output are collaborators around this
//! core; the mapping, buffering and scheduling rules live here.

pub mod converter;
pub mod frame;
pub mod errors;
pub mod extractor;
pub mod parse;
pub mod playback;
pub mod reader;

pub use converter::CharacterSet;
