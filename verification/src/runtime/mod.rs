//! What happens while the player runs.
pub mod drm_present;
pub mod event_loop;
pub mod grace;
