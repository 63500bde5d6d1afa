//! Talking to the wallpaper processes over named pipes.
pub mod client;
pub mod mpv_protocol;
pub mod wp_proc;
