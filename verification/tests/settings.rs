use mirrorstar_core::binary32::Binary32;
use mirrorstar_core::config::settings::{
    AppConfig, Arrangement, AudioConfig, FullscreenAction, GifConfig, VideoConfig,
    DEFAULT_GIF_MEMORY_MB, MAX_BALANCED_KEEP_FRAMES, MAX_GIF_MEMORY_MB_LIMIT, MIN_GIF_MEMORY_MB,
};
use mirrorstar_core::config::validation::{validate_speed, validate_volume};
use mirrorstar_core::wallpaper::{GifMemoryStrategy, DEFAULT_BALANCED_KEEP_FRAMES};

fn number(value: f32) -> Binary32 {
    Binary32 { bits: value.to_bits() }
}

fn value(number: Binary32) -> f32 {
    f32::from_bits(number.bits)
}

#[test]
fn app_config_default_values() {
    let config = AppConfig::default();
    assert!(!config.general.auto_start);
    assert!(config.general.minimize_to_tray);
    assert!((value(config.audio.volume) - 0.8).abs() < f32::EPSILON);
    assert!(!config.audio.muted);
    assert_eq!(config.pause.fullscreen_action, FullscreenAction::Terminate);
    assert!(!config.pause.pause_on_battery);
    assert_eq!(config.display.arrangement, Arrangement::PerMonitor);
    assert!(config.video.hwdec);
    assert!((value(config.video.speed) - 1.0).abs() < f32::EPSILON);
    assert_eq!(config.gif.memory_strategy, GifMemoryStrategy::Balanced);
    assert_eq!(config.gif.balanced_keep_frames, DEFAULT_BALANCED_KEEP_FRAMES);
}

#[test]
fn validate_clamps_audio_volume_above_1() {
    let mut config = AppConfig {
        audio: AudioConfig {
            volume: number(1.5),
            muted: false,
        },
        ..AppConfig::default()
    };
    config.validate();
    assert!((value(config.audio.volume) - 1.0).abs() < f32::EPSILON);
}

#[test]
fn validate_clamps_audio_volume_below_0() {
    let mut config = AppConfig {
        audio: AudioConfig {
            volume: number(-0.5),
            muted: false,
        },
        ..AppConfig::default()
    };
    config.validate();
    assert!((value(config.audio.volume) - 0.0).abs() < f32::EPSILON);
}

#[test]
fn validate_clamps_audio_volume_nan() {
    let mut config = AppConfig {
        audio: AudioConfig {
            volume: number(f32::NAN),
            muted: false,
        },
        ..AppConfig::default()
    };
    config.validate();
    assert!((value(config.audio.volume) - 0.8).abs() < f32::EPSILON);
}

#[test]
fn validate_keeps_audio_volume_in_range() {
    for &v in &[0.0_f32, 0.5, 1.0] {
        let mut config = AppConfig {
            audio: AudioConfig {
                volume: number(v),
                muted: false,
            },
            ..AppConfig::default()
        };
        config.validate();
        assert!((value(config.audio.volume) - v).abs() < f32::EPSILON);
    }
}

#[test]
fn validate_resets_video_speed_zero_or_negative() {
    for &s in &[0.0_f32, -1.0, f32::NAN] {
        let mut config = AppConfig {
            video: VideoConfig {
                hwdec: true,
                speed: number(s),
            },
            ..AppConfig::default()
        };
        config.validate();
        assert!((value(config.video.speed) - 1.0).abs() < f32::EPSILON);
    }
}

#[test]
fn validate_keeps_video_speed_positive() {
    let mut config = AppConfig {
        video: VideoConfig {
            hwdec: true,
            speed: number(1.5),
        },
        ..AppConfig::default()
    };
    config.validate();
    assert!((value(config.video.speed) - 1.5).abs() < f32::EPSILON);
}

#[test]
fn validate_resets_gif_balanced_keep_frames_zero() {
    let mut config = AppConfig {
        gif: GifConfig {
            memory_strategy: GifMemoryStrategy::Balanced,
            balanced_keep_frames: 0,
            ..GifConfig::default()
        },
        ..AppConfig::default()
    };
    config.validate();
    assert_eq!(config.gif.balanced_keep_frames, DEFAULT_BALANCED_KEEP_FRAMES);
}

#[test]
fn validate_keeps_gif_balanced_keep_frames_positive() {
    let mut config = AppConfig {
        gif: GifConfig {
            memory_strategy: GifMemoryStrategy::Balanced,
            balanced_keep_frames: 5,
            ..GifConfig::default()
        },
        ..AppConfig::default()
    };
    config.validate();
    assert_eq!(config.gif.balanced_keep_frames, 5);
}

#[test]
fn c005_gif_config_validate_rejects_oversized_keep_frames() {
    let mut config = AppConfig {
        gif: GifConfig {
            memory_strategy: GifMemoryStrategy::Balanced,
            balanced_keep_frames: 999_999_999,
            ..GifConfig::default()
        },
        ..AppConfig::default()
    };
    config.validate();
    assert_eq!(config.gif.balanced_keep_frames, DEFAULT_BALANCED_KEEP_FRAMES);
}

#[test]
fn c005_gif_config_validate_accepts_normal_keep_frames() {
    let mut config = AppConfig {
        gif: GifConfig {
            memory_strategy: GifMemoryStrategy::Balanced,
            balanced_keep_frames: 10,
            ..GifConfig::default()
        },
        ..AppConfig::default()
    };
    config.validate();
    assert_eq!(config.gif.balanced_keep_frames, 10);
}

#[test]
fn w012_gif_config_validate_rejects_below_min_memory_mb() {
    let mut config = AppConfig {
        gif: GifConfig {
            max_memory_mb: 5,
            ..GifConfig::default()
        },
        ..AppConfig::default()
    };
    config.validate();
    assert_eq!(config.gif.max_memory_mb, DEFAULT_GIF_MEMORY_MB);
}

#[test]
fn w012_gif_config_validate_rejects_above_max_memory_mb() {
    let mut config = AppConfig {
        gif: GifConfig {
            max_memory_mb: 99_999,
            ..GifConfig::default()
        },
        ..AppConfig::default()
    };
    config.validate();
    assert_eq!(config.gif.max_memory_mb, DEFAULT_GIF_MEMORY_MB);
}

#[test]
fn w012_gif_config_validate_accepts_normal_memory_mb() {
    let mut config = AppConfig {
        gif: GifConfig {
            max_memory_mb: 100,
            ..GifConfig::default()
        },
        ..AppConfig::default()
    };
    config.validate();
    assert_eq!(config.gif.max_memory_mb, 100);
}

#[test]
fn validating_twice_changes_nothing_more() {
    for &v in &[f32::NAN, f32::INFINITY, f32::NEG_INFINITY, -1.0, 0.25, 7.0, 10.0, 10.5] {
        let mut config = AppConfig {
            audio: AudioConfig { volume: number(v), muted: true },
            video: VideoConfig { hwdec: false, speed: number(v) },
            gif: GifConfig {
                memory_strategy: GifMemoryStrategy::Performance,
                balanced_keep_frames: MAX_BALANCED_KEEP_FRAMES + 1,
                max_memory_mb: MAX_GIF_MEMORY_MB_LIMIT + 1,
            },
            ..AppConfig::default()
        };
        config.validate();
        let volume = value(config.audio.volume);
        let speed = value(config.video.speed);
        assert!((0.0..=1.0).contains(&volume));
        assert!(speed > 0.0 && speed <= 10.0);
        assert!(config.audio.muted);
        assert!(!config.video.hwdec);
        let once = config;
        config.validate();
        assert_eq!(config, once);
    }
}

#[test]
fn the_limits_themselves_are_in_range() {
    let mut config = AppConfig {
        gif: GifConfig {
            memory_strategy: GifMemoryStrategy::Balanced,
            balanced_keep_frames: MAX_BALANCED_KEEP_FRAMES,
            max_memory_mb: MAX_GIF_MEMORY_MB_LIMIT,
        },
        ..AppConfig::default()
    };
    let before = config;
    config.validate();
    assert_eq!(config, before);
    config.gif.max_memory_mb = MIN_GIF_MEMORY_MB;
    config.gif.balanced_keep_frames = 1;
    let before = config;
    config.validate();
    assert_eq!(config, before);
}

#[test]
fn volumes_are_checked() {
    for &v in &[0.0_f32, -0.0, 0.5, 1.0] {
        assert!(validate_volume(number(v), &v.to_string()).is_ok());
    }
    for &v in &[-0.1_f32, 1.1, f32::NAN, f32::INFINITY, f32::NEG_INFINITY] {
        let error = validate_volume(number(v), &v.to_string()).unwrap_err();
        assert_eq!(error.code(), "InvalidArgument");
        assert!(error.message().ends_with(&format!("音量必须在 0.0-1.0 之间，实际: {}", v)));
    }
}

#[test]
fn speeds_are_checked() {
    for &v in &[f32::MIN_POSITIVE, 0.5, 1.0, 10.0] {
        assert!(validate_speed(number(v), &v.to_string()).is_ok());
    }
    for &v in &[0.0_f32, -0.0, -1.0, 10.5, f32::NAN, f32::INFINITY] {
        let error = validate_speed(number(v), &v.to_string()).unwrap_err();
        assert_eq!(error.code(), "InvalidArgument");
        assert!(error
            .message()
            .ends_with(&format!("播放速度必须在 0.0-10.0 之间且大于 0，实际: {}", v)));
    }
}

#[test]
fn numbers_compare_like_floating_point_numbers() {
    let samples = [
        0.0_f32,
        -0.0,
        1.0,
        -1.0,
        0.8,
        10.0,
        f32::MIN_POSITIVE,
        f32::MAX,
        f32::MIN,
        f32::INFINITY,
        f32::NEG_INFINITY,
        f32::NAN,
        1.0e-40,
        -1.0e-40,
    ];
    for &a in &samples {
        assert_eq!(number(a).is_nan(), a.is_nan());
        assert_eq!(number(a).is_finite(), a.is_finite());
        for &b in &samples {
            assert_eq!(number(a).is_less(number(b)), a < b);
            assert_eq!(number(a).is_at_most(number(b)), a <= b);
        }
    }
}

#[test]
fn a_number_is_brought_between_two_others() {
    let low = number(0.0);
    let high = number(1.0);
    assert_eq!(value(number(1.5).clamp_to(low, high)), 1.0);
    assert_eq!(value(number(-1.5).clamp_to(low, high)), 0.0);
    assert_eq!(value(number(0.25).clamp_to(low, high)), 0.25);
}
