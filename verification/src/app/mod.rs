//! State of the player and how it is set up.
pub mod bootstrap;
pub mod buffers;
pub mod state;
pub mod wait;
