//! What is drawn, and how large.
pub mod egl;
pub mod frame;
pub mod state;
