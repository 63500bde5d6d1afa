//! Core of a desktop wallpaper engine.
pub mod audio;
pub mod binary32;
pub mod config;
pub mod desktop;
pub mod encoding;
pub mod error;
pub mod ipc;
pub mod json;
pub mod keyed;
pub mod layout;
pub mod paths;
pub mod perf;
pub mod text;
pub mod time;
pub mod wallpaper;

pub use error::MirrorStarError;
pub use audio::volume::VolumeControl;
pub use config::settings::{AppConfig, Arrangement, FullscreenAction};
pub use config::{ConfigKind, ConfigLoadError, ConfigManager};
pub use desktop::DesktopIntegrator;
pub use wallpaper::{GifMemoryStrategy, ScalingMode, WallpaperType};
