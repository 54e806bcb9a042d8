//! Decoding a video: opening it, choosing a pixel format, playing it in a loop, and
//! trying out hardware decoding.
//!
//! The codec library is called by the program. What to call next, what to make of the
//! answer and what to give up is decided here.
pub mod codes;
pub mod compat;
pub mod format;
pub mod opening;
pub mod play;
pub mod render_check;
