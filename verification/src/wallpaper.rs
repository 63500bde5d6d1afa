//! Kinds of wallpapers and how they are shown.
use vstd::prelude::*;

verus! {

/// How many frames of an animation stay decoded when memory and speed are balanced.
pub const DEFAULT_BALANCED_KEEP_FRAMES: usize = 3;

/// What a wallpaper file holds.
#[derive(Clone, Copy, Debug, PartialEq, Eq, Structural)]
pub enum WallpaperType {
    /// A video.
    Video,
    /// An animated picture.
    Gif,
    /// A still picture.
    Image,
    /// A web page.
    Web,
}

/// How a picture is fitted to the screen.
#[derive(Clone, Copy, Debug, PartialEq, Eq, Structural)]
pub enum ScalingMode {
    /// Fill the screen, cutting off what does not fit.
    Fill,
    /// Show all of the picture.
    Fit,
    /// Fill the screen, changing the proportions.
    Stretch,
    /// Put the picture in the middle.
    Center,
    /// Keep the picture's own size.
    Original,
}

impl Default for ScalingMode {
    fn default() -> (r: Self)
        ensures
            r == ScalingMode::Fill,
    {
        ScalingMode::Fill
    }
}

/// How decoded frames of an animation are kept.
#[derive(Clone, Copy, Debug, PartialEq, Eq, Structural)]
pub enum GifMemoryStrategy {
    /// Keep a few frames.
    Balanced,
    /// Keep all frames.
    Performance,
}

impl Default for GifMemoryStrategy {
    fn default() -> (r: Self)
        ensures
            r == GifMemoryStrategy::Balanced,
    {
        GifMemoryStrategy::Balanced
    }
}

} // verus!
