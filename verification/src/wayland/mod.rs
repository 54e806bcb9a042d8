//! What the player makes of the compositor's events.
pub mod callbacks;
pub mod dispatch;
pub mod surfaces;
