//! Events of the mpv player.
pub mod events;
