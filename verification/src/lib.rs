//! Verified core of a Wayland video wallpaper client.
pub mod app;
pub mod cli;
pub mod decoder;
pub mod drm_frame;
pub mod drm_node;
pub mod frame_queue;
pub mod logging;
pub mod mpv;
pub mod render;
pub mod runtime;
pub mod shader;
pub mod text;
pub mod timing;
pub mod vaapi_converter;
pub mod wayland;
