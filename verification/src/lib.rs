//! The engine of a folder-based audio player, without its devices.
//!
//! The player walks a directory, plays what it can decode, and shows the
//! present track and a window of its samples. This crate holds what the
//! player decides and computes:
//!
//! - `format`: which codec a file name asks for;
//! - `naming`: the names shown for a track and for its directory;
//! - `capture`: the tap that takes sample windows out of a decoder's stream;
//! - `state`: the record shared with the presentation layer, and what the
//!   user's requests do to it;
//! - `playback`: the track numbers of a pass over the directory, and what
//!   one tick of the playback loop does.
//!
//! Files, the audio device, threads and the clock belong to the program
//! around it.

pub mod capture;
pub mod format;
pub mod naming;
pub mod path;
pub mod playback;
pub mod state;

pub use capture::{SpyDecoder, CAPTURE_WAIT, SAMPLES};
pub use format::{track_format, MusicFormat};
pub use naming::{dir_name, track_name, LABEL_CAP};
pub use playback::{Entry, Pass, SinkAction};
pub use state::State;
