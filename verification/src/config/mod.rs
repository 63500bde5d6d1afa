//! Settings, the wallpaper library and what is derived from wallpaper files.
pub mod detect;
pub mod hot_reload;
pub mod manager;
pub mod playback;
pub mod raster;
pub mod settings;
pub mod thumbnail;
pub mod validation;

pub use crate::wallpaper::WallpaperType;
pub use detect::detect_wallpaper_type;
pub use manager::{
    data_root, init_data_root, resolve_data_root, ConfigKind, ConfigLoadError, ConfigManager,
    DisplayInfo, WallpaperEntry, WallpaperLibrary, WallpaperMetadata,
};
pub use thumbnail::{generate_thumbnail, generate_video_thumbnail, is_ffmpeg_available};
