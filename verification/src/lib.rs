//! Track selection and sequencing for an album player.
//!
//! The crate decides *what* is played and in *which order*: it reads the
//! `skip:take` range selector, tells audio files from playlists by their
//! extension, filters playlist and directory listings, slices the candidate
//! list, steps the pass that prepares processed copies of the tracks, and
//! steps the playback session from device choice to the last track.
//! Touching the file system, the audio device, the tool and the clock is
//! left to the caller, who hands in plain values and gets plain values back.

pub mod text;
pub mod numeral;
pub mod range;
pub mod select;
pub mod source;
pub mod playlist;
pub mod process;
pub mod device;
pub mod playback;
