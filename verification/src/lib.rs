//! Eco Music: the logic behind an audio-only player for public playlists.
//!
//! The library validates and canonicalises playlist addresses, reads the
//! extractor's playlist listing and the stored bookmarks, and assembles the
//! playback order. Processes, sockets, files and the window live in the
//! application around it.

pub mod text;
pub mod urls;
pub mod json;
pub mod extract;
pub mod shuffle;
pub mod bookmarks;
pub mod player;
pub mod fonts;
pub mod session;
