//! The settings and the ranges of their values.
//!
//! `validate` never fails: a value that is out of range is replaced on the spot, so
//! that the settings are always usable.
use vstd::prelude::*;
use crate::binary32;
use crate::binary32::Binary32;
use crate::wallpaper::{GifMemoryStrategy, DEFAULT_BALANCED_KEEP_FRAMES};

verus! {

/// The most frames that may be kept.
pub const MAX_BALANCED_KEEP_FRAMES: usize = 1000;

/// The memory for frames unless set otherwise, in megabytes.
pub const DEFAULT_GIF_MEMORY_MB: usize = 40;

/// The least memory for frames, in megabytes.
pub const MIN_GIF_MEMORY_MB: usize = 10;

/// The most memory for frames, in megabytes.
pub const MAX_GIF_MEMORY_MB_LIMIT: usize = 500;

/// What happens to the wallpaper while another window fills the screen.
#[derive(Clone, Copy, Debug, PartialEq, Eq, Structural)]
pub enum FullscreenAction {
    /// Nothing.
    Ignore,
    /// It is paused.
    Pause,
    /// Its process is ended.
    Terminate,
}

impl Default for FullscreenAction {
    fn default() -> (r: Self)
        ensures
            r == FullscreenAction::Terminate,
    {
        FullscreenAction::Terminate
    }
}

/// How wallpapers are spread over the displays.
#[derive(Clone, Copy, Debug, PartialEq, Eq, Structural)]
pub enum Arrangement {
    /// Each display has a wallpaper of its own.
    PerMonitor,
    /// Every display shows the same wallpaper.
    AllSame,
    /// One wallpaper covers all displays.
    Span,
}

impl Default for Arrangement {
    fn default() -> (r: Self)
        ensures
            r == Arrangement::PerMonitor,
    {
        Arrangement::PerMonitor
    }
}

/// General settings.
#[derive(Clone, Copy, Debug, PartialEq, Eq, Structural)]
pub struct GeneralConfig {
    /// Start with the system.
    pub auto_start: bool,
    /// Closing the window keeps the program in the tray.
    pub minimize_to_tray: bool,
}

impl Default for GeneralConfig {
    fn default() -> (r: Self)
        ensures
            r == (GeneralConfig { auto_start: false, minimize_to_tray: true }),
    {
        GeneralConfig { auto_start: false, minimize_to_tray: true }
    }
}

/// Sound settings.
#[derive(Clone, Copy, Debug, PartialEq, Eq, Structural)]
pub struct AudioConfig {
    /// The volume, from 0 to 1.
    pub volume: Binary32,
    /// No sound at all.
    pub muted: bool,
}

impl Default for AudioConfig {
    fn default() -> (r: Self)
        ensures
            r.volume.bits == binary32::FOUR_FIFTHS,
            !r.muted,
    {
        AudioConfig { volume: Binary32 { bits: binary32::FOUR_FIFTHS }, muted: false }
    }
}

/// The volume that a volume is replaced by: 0.8 for what is no number, else the nearest
/// volume from 0 to 1.
pub open spec fn valid_volume(volume: Binary32) -> Binary32 {
    if volume.nan() {
        Binary32 { bits: binary32::FOUR_FIFTHS }
    } else {
        binary32::clamped(
            volume,
            Binary32 { bits: binary32::ZERO },
            Binary32 { bits: binary32::ONE },
        )
    }
}

impl AudioConfig {
    /// The settings with a volume in range.
    pub open spec fn validated(self) -> AudioConfig {
        AudioConfig { volume: valid_volume(self.volume), ..self }
    }

    /// Brings the volume into its range.
    pub fn validate(&mut self)
        ensures
            *final(self) == old(self).validated(),
    {
        let zero = Binary32 { bits: binary32::ZERO };
        let one = Binary32 { bits: binary32::ONE };
        if self.volume.is_nan() {
            self.volume = Binary32 { bits: binary32::FOUR_FIFTHS };
        } else if self.volume.is_less(zero) {
            self.volume = zero;
        } else if one.is_less(self.volume) {
            self.volume = one;
        }
    }
}

/// When wallpapers pause.
#[derive(Clone, Copy, Debug, PartialEq, Eq, Structural)]
pub struct PauseConfig {
    /// While another window fills the screen.
    pub fullscreen_action: FullscreenAction,
    /// On battery power.
    pub pause_on_battery: bool,
}

impl Default for PauseConfig {
    fn default() -> (r: Self)
        ensures
            r == (PauseConfig {
                fullscreen_action: FullscreenAction::Terminate,
                pause_on_battery: false,
            }),
    {
        PauseConfig { fullscreen_action: FullscreenAction::Terminate, pause_on_battery: false }
    }
}

/// Display settings.
#[derive(Clone, Copy, Debug, PartialEq, Eq, Structural)]
pub struct DisplayConfig {
    /// How wallpapers are spread over the displays.
    pub arrangement: Arrangement,
}

impl Default for DisplayConfig {
    fn default() -> (r: Self)
        ensures
            r.arrangement == Arrangement::PerMonitor,
    {
        DisplayConfig { arrangement: Arrangement::PerMonitor }
    }
}

/// Video settings.
#[derive(Clone, Copy, Debug, PartialEq, Eq, Structural)]
pub struct VideoConfig {
    /// Decode in hardware.
    pub hwdec: bool,
    /// The speed, above 0 and up to 10.
    pub speed: Binary32,
}

impl Default for VideoConfig {
    fn default() -> (r: Self)
        ensures
            r.hwdec,
            r.speed.bits == binary32::ONE,
    {
        VideoConfig { hwdec: true, speed: Binary32 { bits: binary32::ONE } }
    }
}

/// Whether a speed lies above 0 and is at most 10.
pub open spec fn speed_in_range(speed: Binary32) -> bool {
    (Binary32 { bits: binary32::ZERO }).less(speed) && speed.at_most(
        Binary32 { bits: binary32::TEN },
    )
}

impl VideoConfig {
    /// The settings with a speed in range: 1 in place of any other.
    pub open spec fn validated(self) -> VideoConfig {
        if speed_in_range(self.speed) {
            self
        } else {
            VideoConfig { speed: Binary32 { bits: binary32::ONE }, ..self }
        }
    }

    /// Brings the speed into its range.
    pub fn validate(&mut self)
        ensures
            *final(self) == old(self).validated(),
    {
        let zero = Binary32 { bits: binary32::ZERO };
        let ten = Binary32 { bits: binary32::TEN };
        if self.speed.is_nan() || self.speed.is_at_most(zero) {
            self.speed = Binary32 { bits: binary32::ONE };
        } else if ten.is_less(self.speed) {
            self.speed = Binary32 { bits: binary32::ONE };
        }
    }
}

/// Settings for animated pictures.
#[derive(Clone, Copy, Debug, PartialEq, Eq, Structural)]
pub struct GifConfig {
    /// How decoded frames are kept.
    pub memory_strategy: GifMemoryStrategy,
    /// How many frames are kept in balance.
    pub balanced_keep_frames: usize,
    /// The memory for decoded frames, in megabytes.
    pub max_memory_mb: usize,
}

impl Default for GifConfig {
    fn default() -> (r: Self)
        ensures
            r == (GifConfig {
                memory_strategy: GifMemoryStrategy::Balanced,
                balanced_keep_frames: DEFAULT_BALANCED_KEEP_FRAMES,
                max_memory_mb: DEFAULT_GIF_MEMORY_MB,
            }),
    {
        GifConfig {
            memory_strategy: GifMemoryStrategy::default(),
            balanced_keep_frames: DEFAULT_BALANCED_KEEP_FRAMES,
            max_memory_mb: DEFAULT_GIF_MEMORY_MB,
        }
    }
}

impl GifConfig {
    /// The settings with both numbers in range: the default in place of any other.
    pub open spec fn validated(self) -> GifConfig {
        GifConfig {
            balanced_keep_frames: if 1 <= self.balanced_keep_frames <= MAX_BALANCED_KEEP_FRAMES {
                self.balanced_keep_frames
            } else {
                DEFAULT_BALANCED_KEEP_FRAMES
            },
            max_memory_mb: if MIN_GIF_MEMORY_MB <= self.max_memory_mb <= MAX_GIF_MEMORY_MB_LIMIT {
                self.max_memory_mb
            } else {
                DEFAULT_GIF_MEMORY_MB
            },
            ..self
        }
    }

    /// Brings both numbers into their ranges.
    pub fn validate(&mut self)
        ensures
            *final(self) == old(self).validated(),
    {
        if self.balanced_keep_frames < 1 {
            self.balanced_keep_frames = DEFAULT_BALANCED_KEEP_FRAMES;
        } else if self.balanced_keep_frames > MAX_BALANCED_KEEP_FRAMES {
            self.balanced_keep_frames = DEFAULT_BALANCED_KEEP_FRAMES;
        }
        if self.max_memory_mb < MIN_GIF_MEMORY_MB {
            self.max_memory_mb = DEFAULT_GIF_MEMORY_MB;
        } else if self.max_memory_mb > MAX_GIF_MEMORY_MB_LIMIT {
            self.max_memory_mb = DEFAULT_GIF_MEMORY_MB;
        }
    }
}

/// All settings.
#[derive(Clone, Copy, Debug, PartialEq, Eq, Structural)]
pub struct AppConfig {
    /// General settings.
    pub general: GeneralConfig,
    /// Sound settings.
    pub audio: AudioConfig,
    /// When wallpapers pause.
    pub pause: PauseConfig,
    /// Display settings.
    pub display: DisplayConfig,
    /// Video settings.
    pub video: VideoConfig,
    /// Settings for animated pictures.
    pub gif: GifConfig,
}

/// The settings of a new installation.
pub open spec fn default_config() -> AppConfig {
    AppConfig {
        general: GeneralConfig { auto_start: false, minimize_to_tray: true },
        audio: AudioConfig { volume: Binary32 { bits: binary32::FOUR_FIFTHS }, muted: false },
        pause: PauseConfig {
            fullscreen_action: FullscreenAction::Terminate,
            pause_on_battery: false,
        },
        display: DisplayConfig { arrangement: Arrangement::PerMonitor },
        video: VideoConfig { hwdec: true, speed: Binary32 { bits: binary32::ONE } },
        gif: GifConfig {
            memory_strategy: GifMemoryStrategy::Balanced,
            balanced_keep_frames: DEFAULT_BALANCED_KEEP_FRAMES,
            max_memory_mb: DEFAULT_GIF_MEMORY_MB,
        },
    }
}

impl Default for AppConfig {
    fn default() -> (r: Self)
        ensures
            r == default_config(),
    {
        AppConfig {
            general: GeneralConfig::default(),
            audio: AudioConfig::default(),
            pause: PauseConfig::default(),
            display: DisplayConfig::default(),
            video: VideoConfig::default(),
            gif: GifConfig::default(),
        }
    }
}

impl AppConfig {
    /// The settings with every value in range.
    pub open spec fn validated(self) -> AppConfig {
        AppConfig {
            audio: self.audio.validated(),
            video: self.video.validated(),
            gif: self.gif.validated(),
            ..self
        }
    }

    /// Every value is in range.
    pub open spec fn in_range(self) -> bool {
        &&& (Binary32 { bits: binary32::ZERO }).at_most(self.audio.volume)
        &&& self.audio.volume.at_most(Binary32 { bits: binary32::ONE })
        &&& speed_in_range(self.video.speed)
        &&& 1 <= self.gif.balanced_keep_frames <= MAX_BALANCED_KEEP_FRAMES
        &&& MIN_GIF_MEMORY_MB <= self.gif.max_memory_mb <= MAX_GIF_MEMORY_MB_LIMIT
    }

    /// Brings every value into its range.
    pub fn validate(&mut self)
        ensures
            *final(self) == old(self).validated(),
            final(self).in_range(),
    {
        self.audio.validate();
        self.video.validate();
        self.gif.validate();
        proof {
            law_validated_in_range(*old(self));
        }
    }
}

/// Validated settings are in range, whatever they were before.
pub proof fn law_validated_in_range(config: AppConfig)
    ensures
        config.validated().in_range(),
{
}

/// Settings that are in range stay as they are; so validating twice is the same as once.
pub proof fn law_validate_keeps_valid(config: AppConfig)
    ensures
        config.in_range() ==> config.validated() == config,
        config.validated().validated() == config.validated(),
{
    law_validated_in_range(config);
}

/// The settings of a new installation are in range.
pub proof fn law_default_in_range()
    ensures
        default_config().in_range(),
{
}

/// What the checks replace, and by what: a volume below 0 by 0, above 1 by 1, and one that is
/// no number by 0.8; a speed that is no number, not above 0 or above 10 by 1; a number of
/// frames outside 1 to 1000 and a memory limit outside 10 to 500 by the defaults. What lies
/// within the limits is kept.
pub proof fn law_settings_replaced(config: AppConfig)
    ensures
        ({
            let zero = Binary32 { bits: 0 };
            let one = Binary32 { bits: 0x3f80_0000 };
            let ten = Binary32 { bits: 0x4120_0000 };
            let r = config.validated();
            let volume = config.audio.volume;
            let speed = config.video.speed;
            let frames = config.gif.balanced_keep_frames;
            let memory = config.gif.max_memory_mb;
            &&& volume.nan() ==> r.audio.volume.bits == 0x3f4c_cccd
            &&& volume.less(zero) ==> r.audio.volume == zero
            &&& one.less(volume) ==> r.audio.volume == one
            &&& zero.at_most(volume) && volume.at_most(one) ==> r.audio.volume == volume
            &&& zero.less(speed) && speed.at_most(ten) ==> r.video.speed == speed
            &&& !(zero.less(speed) && speed.at_most(ten)) ==> r.video.speed == one
            &&& 1 <= frames <= 1000 ==> r.gif.balanced_keep_frames == frames
            &&& !(1 <= frames <= 1000) ==> r.gif.balanced_keep_frames == 3
            &&& 10 <= memory <= 500 ==> r.gif.max_memory_mb == memory
            &&& !(10 <= memory <= 500) ==> r.gif.max_memory_mb == 40
        }),
{
}

/// The checks change nothing but the volume, the speed, the number of frames and the memory
/// limit.
pub proof fn law_settings_kept(config: AppConfig)
    ensures
        ({
            let r = config.validated();
            &&& r.general == config.general
            &&& r.audio.muted == config.audio.muted
            &&& r.pause == config.pause
            &&& r.display == config.display
            &&& r.video.hwdec == config.video.hwdec
            &&& r.gif.memory_strategy == config.gif.memory_strategy
        }),
{
}

} // verus!
