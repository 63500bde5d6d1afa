use std::cell::RefCell;

use mirrorstar_core::binary32::Binary32;
use mirrorstar_core::config::hot_reload::{
    periodic_step, watch_event_of, FileChange, PeriodicEvent, PeriodicStep, WatchEvent, WatchLoop,
    WatchStep,
};
use mirrorstar_core::config::manager::{
    atomic_write, data_root, init_data_root, load_config, load_library, normalize_path,
    orphan_lock_files, resolve_data_root, save_with_dirty_rollback, zero_byte_thumbnails,
    ConfigKind, ConfigLoadError, ConfigManager, DataPlaces, FileRead, OpenedDir, SeenDir, SeenFile, WallpaperEntry,
    WallpaperLibrary, WallpaperMetadata, WriteNext, WriteStage,
};
use mirrorstar_core::config::settings::AppConfig;
use mirrorstar_core::wallpaper::{WallpaperType, DEFAULT_BALANCED_KEEP_FRAMES};
use mirrorstar_core::MirrorStarError;

type ChangedCallback = Box<dyn Fn()>;
type ErrorCallback = Box<dyn Fn(ConfigLoadError)>;
type Manager = ConfigManager<ChangedCallback, ErrorCallback>;

const MS: u128 = 1_000_000;

fn number(value: f32) -> Binary32 {
    Binary32 { bits: value.to_bits() }
}

fn value(number: Binary32) -> f32 {
    f32::from_bits(number.bits)
}

fn no_config(_: String) -> Result<AppConfig, String> {
    panic!("there is no file to parse")
}

fn no_library(_: String) -> Result<WallpaperLibrary, String> {
    panic!("there is no file to parse")
}

/// What TOML says is wrong with a text.
fn fault(text: &str) -> String {
    match text.parse::<toml::Table>() {
        Ok(_) => panic!("the text is valid"),
        Err(e) => e.to_string(),
    }
}

fn make_temp_config_manager() -> Manager {
    ConfigManager::new_in_dir(
        "C:\\data".to_string(),
        Ok(()),
        FileRead::Missing,
        no_config,
        FileRead::Missing,
        no_library,
    )
    .unwrap()
}

fn entry(id: &str, file_path: &str, wallpaper_type: WallpaperType) -> WallpaperEntry {
    WallpaperEntry {
        id: id.to_string(),
        file_path: file_path.to_string(),
        wallpaper_type,
        display_id: None,
        added_at: "0".to_string(),
        thumbnail: String::new(),
        file_size: 0,
        metadata: None,
        normalized_path: String::new(),
    }
}

fn load_error(path: &str, kind: ConfigKind, message: &str) -> ConfigLoadError {
    ConfigLoadError { path: path.to_string(), kind, message: message.to_string() }
}

#[test]
fn config_manager_add_get_remove_flow() {
    let mut cm = make_temp_config_manager();
    let initial = cm.get_wallpapers().len();

    cm.add_wallpaper(entry("u1", "/t/a.mp4", WallpaperType::Video)).unwrap();
    cm.add_wallpaper(entry("u2", "/t/b.gif", WallpaperType::Gif)).unwrap();

    let wallpapers = cm.get_wallpapers();
    assert_eq!(wallpapers.len(), initial + 2);
    assert!(wallpapers.iter().any(|w| w.id == "u1"));
    assert!(wallpapers.iter().any(|w| w.id == "u2"));
    assert!(cm.is_library_dirty());

    let removed = cm.remove_wallpaper("u1").unwrap();
    assert!(removed.is_some());
    assert_eq!(removed.unwrap().id, "u1");

    let after = cm.get_wallpapers();
    assert_eq!(after.len(), initial + 1);
    assert!(!after.iter().any(|w| w.id == "u1"));

    let none = cm.remove_wallpaper("nonexistent").unwrap();
    assert!(none.is_none());
}

#[test]
fn config_manager_remove_first_match_only() {
    let mut cm = make_temp_config_manager();
    cm.add_wallpaper(entry("dup", "/t/1.mp4", WallpaperType::Video)).unwrap();
    cm.add_wallpaper(entry("dup", "/t/2.mp4", WallpaperType::Video)).unwrap();
    assert_eq!(cm.get_wallpapers().iter().filter(|w| w.id == "dup").count(), 2);

    let removed = cm.remove_wallpaper("dup").unwrap();
    assert!(removed.is_some());
    assert_eq!(removed.unwrap().file_path, "/t/1.mp4");
    assert_eq!(cm.get_wallpapers().iter().filter(|w| w.id == "dup").count(), 1);

    let removed = cm.remove_wallpaper("dup").unwrap();
    assert!(removed.is_some());
    assert_eq!(removed.unwrap().file_path, "/t/2.mp4");
    assert_eq!(cm.get_wallpapers().iter().filter(|w| w.id == "dup").count(), 0);
}

#[test]
fn config_manager_update_thumbnail() {
    let mut cm = make_temp_config_manager();
    cm.add_wallpaper(entry("t1", "/t/img.jpg", WallpaperType::Image)).unwrap();

    let mut written = 0;
    cm.update_thumbnail("/t/img.jpg", "/thumbs/t1.jpg".to_string(), |library| {
        written += 1;
        assert_eq!(library.wallpapers[0].thumbnail, "/thumbs/t1.jpg");
        Ok(5)
    })
    .unwrap();
    assert_eq!(written, 1);
    assert_eq!(cm.last_internal_save(), Some(5));

    let wallpapers = cm.get_wallpapers();
    let found = wallpapers.iter().find(|w| w.id == "t1").unwrap();
    assert_eq!(found.thumbnail, "/thumbs/t1.jpg");

    cm.update_thumbnail("/nonexistent", "/thumbs/x.jpg".to_string(), |_| panic!("unchanged"))
        .unwrap();
}

#[test]
fn config_manager_update_config_persists() {
    let mut cm = make_temp_config_manager();
    let mut cfg = cm.get_config();
    cfg.audio.volume = number(0.5);
    cfg.audio.muted = true;
    let mut written = None;
    cm.update_config(cfg, 1000 * MS, |c| {
        written = Some(c);
        Ok(())
    })
    .unwrap();

    let loaded = cm.get_config();
    assert!((value(loaded.audio.volume) - 0.5).abs() < f32::EPSILON);
    assert!(loaded.audio.muted);
    assert!(!cm.is_dirty());
    assert_eq!(written, Some(loaded));
}

#[test]
fn config_manager_flush_forces_save() {
    let mut cm = make_temp_config_manager();
    let mut cfg = cm.get_config();
    cm.update_config(cfg, 0, |_| Ok(())).unwrap();
    cfg.general.auto_start = true;
    cm.update_config(cfg, 299 * MS, |_| panic!("written shortly before")).unwrap();
    assert!(cm.is_dirty());

    let mut written = None;
    cm.flush(|c| {
        written = Some(c);
        Ok(300 * MS)
    })
    .unwrap();
    assert!(!cm.is_dirty());
    assert!(written.unwrap().general.auto_start);
    cm.flush(|_| panic!("nothing has changed")).unwrap();
}

#[test]
fn a_change_waits_until_the_time_is_over() {
    let mut cm = make_temp_config_manager();
    let cfg = cm.get_config();
    cm.update_config(cfg, 1000 * MS, |_| Ok(())).unwrap();
    cm.update_config(cfg, 1299 * MS, |_| panic!("written shortly before")).unwrap();
    assert!(cm.is_dirty());
    let mut written = false;
    cm.update_config(cfg, 1300 * MS, |_| {
        written = true;
        Ok(())
    })
    .unwrap();
    assert!(written);
    assert!(!cm.is_dirty());
    assert_eq!(cm.last_internal_save(), Some(1300 * MS));
}

#[test]
fn c001_dirty_flag_race_config_not_lost() {
    let mut cm = make_temp_config_manager();
    let mut cfg = cm.get_config();
    cm.update_config(cfg, 0, |_| Ok(())).unwrap();
    cfg.audio.volume = number(0.42);
    cm.update_config(cfg, 10 * MS, |_| panic!("written shortly before")).unwrap();
    assert!(cm.is_dirty());
    let mut on_disk = None;
    cm.flush(|c| {
        on_disk = Some(c);
        Ok(20 * MS)
    })
    .unwrap();
    assert!((value(on_disk.unwrap().audio.volume) - 0.42).abs() < f32::EPSILON);
}

#[test]
fn a_failed_write_leaves_the_mark() {
    let mut cm = make_temp_config_manager();
    let cfg = cm.get_config();
    let error = cm
        .update_config(cfg, 0, |_| Err(MirrorStarError::ConfigWrite("full".to_string())))
        .unwrap_err();
    assert_eq!(error.code(), "ConfigWrite");
    assert!(cm.is_dirty());
    assert_eq!(cm.last_internal_save(), None);
    assert!(cm.flush(|_| Err(MirrorStarError::Io("full".to_string()))).is_err());
    assert!(cm.is_dirty());
    cm.save_config_periodically(|_| Ok(7)).unwrap();
    assert!(!cm.is_dirty());
    assert_eq!(cm.last_internal_save(), Some(7));

    cm.add_wallpaper(entry("a", "a", WallpaperType::Web)).unwrap();
    assert!(cm.flush_library(|_| Err(MirrorStarError::Io("full".to_string()))).is_err());
    assert!(cm.is_library_dirty());
    cm.flush_library(|_| Ok(8)).unwrap();
    assert!(!cm.is_library_dirty());
    cm.flush_library(|_| panic!("nothing has changed")).unwrap();
}

#[test]
fn the_mark_is_taken_off_before_saving_and_set_again_on_failure() {
    let mut dirty = false;
    let unsaved: Result<Option<u8>, MirrorStarError> =
        save_with_dirty_rollback(&mut dirty, || panic!("not marked"));
    assert!(unsaved.unwrap().is_none());
    dirty = true;
    assert_eq!(save_with_dirty_rollback(&mut dirty, || Ok(3)).unwrap(), Some(3));
    assert!(!dirty);
    dirty = true;
    let failed: Result<Option<u8>, MirrorStarError> =
        save_with_dirty_rollback(&mut dirty, || Err(MirrorStarError::Io("x".to_string())));
    assert!(failed.is_err());
    assert!(dirty);
}

#[test]
fn config_manager_save_and_reload_library() {
    let mut cm = make_temp_config_manager();
    cm.add_wallpaper(WallpaperEntry {
        id: "reload-1".to_string(),
        file_path: "/t/r.mp4".to_string(),
        wallpaper_type: WallpaperType::Video,
        display_id: Some("m0".to_string()),
        added_at: "999".to_string(),
        thumbnail: "thumb.jpg".to_string(),
        file_size: 12345,
        metadata: Some(WallpaperMetadata {
            width: Some(1920),
            height: Some(1080),
            duration_bits: Some(60.0_f64.to_bits()),
            frame_count: None,
        }),
        normalized_path: String::new(),
    })
    .unwrap();
    let mut on_disk = None;
    cm.flush_library(|library| {
        on_disk = Some(library.clone());
        Ok(1)
    })
    .unwrap();
    let (reloaded, _err) = load_library(
        "wallpapers.toml",
        FileRead::Data(Vec::new()),
        |_| Ok(on_disk.unwrap()),
    )
    .unwrap();
    assert_eq!(reloaded.wallpapers.len(), 1);
    let entry = &reloaded.wallpapers[0];
    assert_eq!(entry.id, "reload-1");
    assert_eq!(entry.file_path, "/t/r.mp4");
    assert_eq!(entry.wallpaper_type, WallpaperType::Video);
    assert_eq!(entry.display_id, Some("m0".to_string()));
    assert_eq!(entry.added_at, "999");
    assert_eq!(entry.thumbnail, "thumb.jpg");
    assert_eq!(entry.file_size, 12345);
    assert!(entry.metadata.is_some());
    let meta = entry.metadata.as_ref().unwrap();
    assert_eq!(meta.width, Some(1920));
    assert_eq!(meta.height, Some(1080));
    assert_eq!(meta.duration_bits.map(f64::from_bits), Some(60.0));
    assert_eq!(meta.frame_count, None);
    assert_eq!(entry.normalized_path, "\\t\\r.mp4");
}

#[test]
fn config_manager_load_missing_config_returns_default() {
    let (config, err) = load_config("config.toml", FileRead::Missing, no_config).unwrap();
    assert_eq!(config, AppConfig::default());
    assert!(err.is_none());
}

#[test]
fn config_manager_load_missing_library_returns_empty() {
    let (lib, err) = load_library("wallpapers.toml", FileRead::Missing, no_library).unwrap();
    assert_eq!(lib.wallpapers.len(), 0);
    assert!(err.is_none());
}

#[test]
fn config_manager_load_corrupt_config_returns_default() {
    let content = "this is not valid toml = = =";
    let read = FileRead::Data(content.as_bytes().to_vec());
    let (config, err) = load_config("C:\\data\\config.toml", read, |s| Err(fault(&s))).unwrap();
    assert_eq!(config, AppConfig::default());
    let err = err.unwrap();
    assert_eq!(err.kind, ConfigKind::Config);
    assert_eq!(err.path, "C:\\data\\config.toml");
    assert_eq!(err.message, fault(content));
}

#[test]
fn config_manager_load_corrupt_library_returns_empty() {
    let content = "not valid toml {{{{";
    let read = FileRead::Data(content.as_bytes().to_vec());
    let (lib, err) =
        load_library("C:\\data\\wallpapers.toml", read, |s| Err(fault(&s))).unwrap();
    assert_eq!(lib.wallpapers.len(), 0);
    let err = err.unwrap();
    assert_eq!(err.kind, ConfigKind::Library);
    assert_eq!(err.path, "C:\\data\\wallpapers.toml");
    assert_eq!(err.message, fault(content));
}

#[test]
fn wallpaper_library_default_is_empty() {
    let lib = WallpaperLibrary::default();
    assert_eq!(lib.wallpapers.len(), 0);
}

#[test]
fn wallpaper_library_new_is_empty() {
    let lib = WallpaperLibrary { wallpapers: Vec::new() };
    assert_eq!(lib.wallpapers.len(), 0);
    assert_eq!(lib.clone().wallpapers.len(), 0);
}

#[test]
fn new_in_dir_captures_corrupt_config_in_pending_errors() {
    let mut cm: Manager = ConfigManager::new_in_dir(
        "C:\\data".to_string(),
        Ok(()),
        FileRead::Data(b"invalid = = =".to_vec()),
        |s| Err(fault(&s)),
        FileRead::Data(b"bad {{{{".to_vec()),
        |s| Err(fault(&s)),
    )
    .unwrap();
    assert_eq!(cm.get_config(), AppConfig::default());
    let pending = cm.drain_pending_config_errors();
    assert_eq!(pending.len(), 2);
    assert_eq!(pending[0].kind, ConfigKind::Config);
    assert_eq!(pending[0].path, cm.config_path());
    assert!(!pending[0].message.is_empty());
    assert_eq!(pending[1].kind, ConfigKind::Library);
    assert_eq!(pending[1].path, cm.library_path());
    assert!(!pending[1].message.is_empty());
    assert!(cm.drain_pending_config_errors().is_empty());
}

#[test]
fn new_in_dir_no_pending_errors_when_config_valid() {
    let mut cm = make_temp_config_manager();
    assert!(cm.drain_pending_config_errors().is_empty());
    assert_eq!(cm.config_path(), "C:\\data\\config.toml");
    assert_eq!(cm.library_path(), "C:\\data\\wallpapers.toml");
    assert_eq!(cm.thumbnails_dir(), "C:\\data\\thumbnails");
}

#[test]
fn a_manager_needs_its_directory_and_readable_files() {
    let no_dir: Result<Manager, MirrorStarError> = ConfigManager::new_in_dir(
        "d".to_string(),
        Err("denied".to_string()),
        FileRead::Missing,
        no_config,
        FileRead::Missing,
        no_library,
    );
    assert_eq!(no_dir.err().unwrap().code(), "Io");
    let unreadable: Result<Manager, MirrorStarError> = ConfigManager::new_in_dir(
        "d".to_string(),
        Ok(()),
        FileRead::Missing,
        no_config,
        FileRead::Failed("denied".to_string()),
        no_library,
    );
    assert!(unreadable.err().unwrap().message().ends_with("denied"));
}

#[test]
fn notify_config_error_invokes_callback_when_set() {
    let received: std::rc::Rc<RefCell<Vec<ConfigLoadError>>> = Default::default();
    let sink = received.clone();
    let mut cm = make_temp_config_manager();
    cm.set_on_config_error(Box::new(move |error| sink.borrow_mut().push(error)));

    let error = load_error("/test/config.toml", ConfigKind::Config, "test parse error");
    let told = cm.notify_config_error(error).unwrap();
    (cm.on_config_error().unwrap())(told);

    let received = received.borrow();
    assert_eq!(received.len(), 1);
    assert_eq!(received[0].kind, ConfigKind::Config);
    assert_eq!(received[0].message, "test parse error");
    assert!(cm.drain_pending_config_errors().is_empty());
}

#[test]
fn notify_config_error_stores_in_pending_when_callback_unset() {
    let mut cm = make_temp_config_manager();
    assert!(cm.on_config_error().is_none());
    let error1 = load_error("/test/config.toml", ConfigKind::Config, "error 1");
    let error2 = load_error("/test/wallpapers.toml", ConfigKind::Library, "error 2");
    assert!(cm.notify_config_error(error1).is_none());
    assert!(cm.notify_config_error(error2).is_none());
    let pending = cm.drain_pending_config_errors();
    assert_eq!(pending.len(), 2);
    assert_eq!(pending[0].kind, ConfigKind::Config);
    assert_eq!(pending[1].kind, ConfigKind::Library);
}

#[test]
fn set_on_config_error_replaces_callback() {
    let counter1: std::rc::Rc<RefCell<u32>> = Default::default();
    let counter2: std::rc::Rc<RefCell<u32>> = Default::default();
    let mut cm = make_temp_config_manager();
    let count = counter1.clone();
    cm.set_on_config_error(Box::new(move |_| *count.borrow_mut() += 1));
    let count = counter2.clone();
    cm.set_on_config_error(Box::new(move |_| *count.borrow_mut() += 1));

    let told = cm.notify_config_error(load_error("/test", ConfigKind::Config, "test")).unwrap();
    (cm.on_config_error().unwrap())(told);
    assert_eq!(*counter1.borrow(), 0);
    assert_eq!(*counter2.borrow(), 1);
}

#[test]
fn load_config_clamps_out_of_range_values() {
    let (config, err) = load_config("config.toml", FileRead::Data(Vec::new()), |_| {
        let mut c = AppConfig::default();
        c.audio.volume = number(1.5);
        c.video.speed = number(-2.0);
        c.gif.balanced_keep_frames = 0;
        Ok(c)
    })
    .unwrap();
    assert!(err.is_none());
    assert!((value(config.audio.volume) - 1.0).abs() < f32::EPSILON);
    assert!((value(config.video.speed) - 1.0).abs() < f32::EPSILON);
    assert_eq!(config.gif.balanced_keep_frames, DEFAULT_BALANCED_KEEP_FRAMES);
}

#[test]
fn c009_update_config_validates_before_write() {
    let mut cm = make_temp_config_manager();
    let mut cfg = cm.get_config();
    cfg.audio.volume = number(1.5);
    cfg.video.speed = number(-2.0);
    cfg.gif.balanced_keep_frames = 0;
    let mut reloaded = None;
    cm.update_config(cfg, 0, |c| {
        reloaded = Some(c);
        Ok(())
    })
    .unwrap();
    for config in [cm.get_config(), reloaded.unwrap()] {
        assert!((value(config.audio.volume) - 1.0).abs() < f32::EPSILON);
        assert!((value(config.video.speed) - 1.0).abs() < f32::EPSILON);
        assert_eq!(config.gif.balanced_keep_frames, DEFAULT_BALANCED_KEEP_FRAMES);
    }
}

#[test]
fn c009_update_config_preserves_valid_values() {
    let mut cm = make_temp_config_manager();
    let mut cfg = cm.get_config();
    cfg.audio.volume = number(0.5);
    cfg.video.speed = number(1.0);
    cfg.gif.balanced_keep_frames = 10;
    cm.update_config(cfg, 0, |_| Ok(())).unwrap();
    let loaded = cm.get_config();
    assert!((value(loaded.audio.volume) - 0.5).abs() < f32::EPSILON);
    assert!((value(loaded.video.speed) - 1.0).abs() < f32::EPSILON);
    assert_eq!(loaded.gif.balanced_keep_frames, 10);
}

fn seen(path: &str, is_file: bool, size: Option<u64>) -> SeenFile {
    SeenFile { path: path.to_string(), is_file, size }
}

fn listed(files: Vec<SeenFile>) -> SeenDir {
    SeenDir { files, failure: None }
}

#[test]
fn cleanup_corrupted_thumbnails_uses_instance_data_dir() {
    let cm = make_temp_config_manager();
    let removed: RefCell<Vec<String>> = RefCell::new(Vec::new());
    let thumbnails = vec![
        seen("C:\\data\\thumbnails\\corrupted.jpg", true, Some(0)),
        seen("C:\\data\\thumbnails\\ok.jpg", true, Some(13)),
        seen("C:\\data\\thumbnails\\dir", false, Some(0)),
        seen("C:\\data\\thumbnails\\unknown.jpg", true, None),
    ];
    let count = cm
        .cleanup_corrupted_thumbnails(listed(thumbnails), Some(Vec::new()), &|path: String| {
            removed.borrow_mut().push(path);
            true
        })
        .unwrap();
    assert_eq!(count, 1);
    assert_eq!(*removed.borrow(), ["C:\\data\\thumbnails\\corrupted.jpg"]);
}

#[test]
fn cleanup_corrupted_thumbnails_returns_zero_when_dir_missing() {
    let cm = make_temp_config_manager();
    let count = cm
        .cleanup_corrupted_thumbnails(listed(Vec::new()), None, &|_: String| panic!("nothing is there"))
        .unwrap();
    assert_eq!(count, 0);
}

#[test]
fn a_directory_that_cannot_be_read_to_its_end_is_an_error() {
    let cm = make_temp_config_manager();
    let removed: RefCell<Vec<String>> = RefCell::new(Vec::new());
    let thumbnails = SeenDir {
        files: vec![seen("a", true, Some(0)), seen("b", true, Some(1))],
        failure: Some("denied".to_string()),
    };
    let locks = Some(names(&["orphan.lock"]));
    let error = cm
        .cleanup_corrupted_thumbnails(thumbnails, locks, &|path: String| {
            removed.borrow_mut().push(path);
            true
        })
        .unwrap_err();
    assert_eq!(error.code(), "Io");
    assert!(error.message().ends_with("denied"));
    assert_eq!(*removed.borrow(), ["a"]);
}

#[test]
fn files_that_stay_are_not_counted() {
    let cm = make_temp_config_manager();
    let thumbnails = vec![seen("a", true, Some(0)), seen("b", true, Some(0))];
    assert_eq!(zero_byte_thumbnails(&thumbnails), ["a", "b"]);
    let count = cm
        .cleanup_zero_byte_thumbnails(listed(thumbnails), &|path: String| path == "b")
        .unwrap();
    assert_eq!(count, 1);
}

fn names(list: &[&str]) -> Vec<String> {
    list.iter().map(|s| s.to_string()).collect()
}

#[test]
fn v41_c003_cleanup_lock_files_preserves_valid_locks() {
    let cm = make_temp_config_manager();
    let all = names(&[
        "config.toml",
        "config.lock",
        "wallpapers.toml",
        "wallpapers.lock",
        "orphan.lock",
    ]);
    assert_eq!(orphan_lock_files(&all), ["orphan.lock"]);
    let removed: RefCell<Vec<String>> = RefCell::new(Vec::new());
    let count = cm
        .cleanup_corrupted_thumbnails(listed(Vec::new()), Some(all), &|path: String| {
            removed.borrow_mut().push(path);
            true
        })
        .unwrap();
    assert_eq!(count, 1);
    assert_eq!(*removed.borrow(), ["C:\\data\\orphan.lock"]);
}

#[test]
fn v41_c003_cleanup_lock_files_handles_stem_only_main_file() {
    assert!(orphan_lock_files(&names(&["config.toml", "data", "data.lock"])).is_empty());
    assert_eq!(orphan_lock_files(&names(&[".lock", "a.lock.lock"])), ["a.lock.lock"]);
    assert_eq!(orphan_lock_files(&names(&["b.lock", "b.lock.lock"])), ["b.lock"]);
}

#[test]
fn atomic_write_creates_file() {
    let mut write = atomic_write("C:\\data\\config.toml");
    assert_eq!(write.lock_path, "C:\\data\\config.lock");
    assert_eq!(write.temp_path, "C:\\data\\config.tmp");
    assert_eq!(write.stage, WriteStage::Writing);
    match write.on_done(Ok(())) {
        WriteNext::Rename => {}
        other => panic!("{:?}", other),
    }
    match write.on_done(Ok(())) {
        WriteNext::Finished => {}
        other => panic!("{:?}", other),
    }
}

#[test]
fn atomic_write_cleans_temp_on_rename_failure() {
    let mut write = atomic_write("target.toml");
    write.on_done(Ok(()));
    match write.on_done(Err("is a directory".to_string())) {
        WriteNext::Discard(error) => assert!(error.message().ends_with("is a directory")),
        other => panic!("{:?}", other),
    }
}

#[test]
fn v41_c001_atomic_write_cleans_temp_on_write_failure() {
    let mut write = atomic_write("target.toml");
    match write.on_done(Err("disk full".to_string())) {
        WriteNext::Discard(error) => assert_eq!(error.code(), "Io"),
        other => panic!("{:?}", other),
    }
    assert_eq!(write.stage, WriteStage::Writing);
}

#[test]
fn load_config_rejects_file_exceeding_max_size() {
    let large = FileRead::Data(vec![b'x'; 2 * 1024 * 1024]);
    let error = load_config("config.toml", large, no_config).unwrap_err();
    assert_eq!(error.code(), "ConfigParse");
    assert!(error.message().ends_with("文件超过 1048576 字节上限（读取 1048577 字节）"));
}

#[test]
fn load_library_rejects_file_exceeding_max_size() {
    let large = FileRead::Data(vec![b'x'; 2 * 1024 * 1024]);
    assert!(load_library("wallpapers.toml", large, no_library).is_err());
}

#[test]
fn files_must_be_text() {
    let error = load_config("config.toml", FileRead::Data(vec![0xFF, 0xFE]), no_config).unwrap_err();
    assert_eq!(error.code(), "Io");
    assert!(error.message().contains("invalid utf-8 sequence"));
    let allowed = FileRead::Data(vec![b' '; 1024 * 1024]);
    assert!(load_config("config.toml", allowed, |s| {
        assert_eq!(s.len(), 1024 * 1024);
        Ok(AppConfig::default())
    })
    .is_ok());
}

#[test]
fn load_config_still_works_after_c08_refactor() {
    let read = FileRead::Data(b"[audio]\nvolume = 0.7\n".to_vec());
    let (config, err) = load_config("config.toml", read, |s| {
        let table = s.parse::<toml::Table>().unwrap();
        let mut c = AppConfig::default();
        c.audio.volume = number(table["audio"]["volume"].as_float().unwrap() as f32);
        Ok(c)
    })
    .unwrap();
    assert!(err.is_none());
    assert!((value(config.audio.volume) - 0.7).abs() < f32::EPSILON);
}

fn thumbnail_after(file_path: &str, updated: &str, thumbnail: &str) -> String {
    let mut cm = make_temp_config_manager();
    cm.add_wallpaper(entry("c09", file_path, WallpaperType::Image)).unwrap();
    cm.update_thumbnail(updated, thumbnail.to_string(), |_| Ok(0)).unwrap();
    cm.get_wallpaper("c09").unwrap().thumbnail
}

#[test]
fn update_thumbnail_matches_normalized_path() {
    assert_eq!(
        thumbnail_after(
            "C:/Users/Test/Wallpapers/img.jpg",
            "c:\\users\\test\\wallpapers\\img.jpg",
            "/thumbs/c09.jpg"
        ),
        "/thumbs/c09.jpg"
    );
}

#[test]
fn update_thumbnail_still_matches_exact_path() {
    assert_eq!(
        thumbnail_after("/path/to/img.png", "/path/to/img.png", "/thumbs/exact.png"),
        "/thumbs/exact.png"
    );
}

#[test]
fn update_thumbnail_symmetric_backslash_to_forward_slash() {
    assert_eq!(
        thumbnail_after(
            "C:\\Users\\Test\\Wallpapers\\IMG.jpg",
            "c:/users/test/wallpapers/img.jpg",
            "/thumbs/c09sym.jpg"
        ),
        "/thumbs/c09sym.jpg"
    );
}

#[test]
fn update_thumbnail_mixed_separators_match() {
    assert_eq!(
        thumbnail_after(
            "D:/data\\wallpapers\\Movie.mp4",
            "d:\\data/wallpapers/movie.mp4",
            "/thumbs/c09mix.jpg"
        ),
        "/thumbs/c09mix.jpg"
    );
}

#[test]
fn normalize_path_direction_matches_w13() {
    assert_eq!(normalize_path("C:/Users/Test/File.mp4"), "c:\\users\\test\\file.mp4");
    assert_eq!(normalize_path("C:\\Users\\Test\\File.mp4"), "c:\\users\\test\\file.mp4");
    assert_eq!(normalize_path("c:/users\\test/file.mp4"), "c:\\users\\test\\file.mp4");
    assert_eq!(normalize_path("c:\\users/test\\file.mp4"), "c:\\users\\test\\file.mp4");
    assert_eq!(normalize_path("A/B/C.PNG"), normalize_path("A\\B\\C.PNG"));
    assert_eq!(normalize_path(""), "");
    assert_eq!(normalize_path("ÄÖ/中"), "äö\\中");
}

#[test]
fn several_thumbnails_are_written_at_once() {
    let mut cm = make_temp_config_manager();
    cm.add_wallpaper(entry("a", "/t/a.jpg", WallpaperType::Image)).unwrap();
    cm.add_wallpaper(entry("b", "/t/b.jpg", WallpaperType::Image)).unwrap();
    let updates = vec![
        ("/T/A.JPG".to_string(), "1.jpg".to_string()),
        ("/t/missing.jpg".to_string(), "2.jpg".to_string()),
        ("\\t\\b.jpg".to_string(), "3.jpg".to_string()),
    ];
    let mut written = 0;
    let count = cm
        .batch_update_thumbnails(&updates, |library| {
            written += 1;
            assert_eq!(library.wallpapers.len(), 2);
            Ok(9)
        })
        .unwrap();
    assert_eq!(count, 2);
    assert_eq!(written, 1);
    assert_eq!(cm.get_wallpaper("a").unwrap().thumbnail, "1.jpg");
    assert_eq!(cm.get_wallpaper("b").unwrap().thumbnail, "3.jpg");
    assert!(cm.get_wallpaper("c").is_none());
    assert_eq!(cm.batch_update_thumbnails(&Vec::new(), |_| panic!("unchanged")).unwrap(), 0);
    let missing = vec![("/t/missing.jpg".to_string(), "2.jpg".to_string())];
    assert_eq!(cm.batch_update_thumbnails(&missing, |_| panic!("unchanged")).unwrap(), 0);
    let failing = vec![("/t/a.jpg".to_string(), "4.jpg".to_string())];
    let failure = |_: &WallpaperLibrary| Err(MirrorStarError::Io("full".to_string()));
    assert!(cm.batch_update_thumbnails(&failing, failure).is_err());
    assert_eq!(cm.get_wallpaper("a").unwrap().thumbnail, "4.jpg");
}

fn with_volume(volume: f32) -> AppConfig {
    let mut config = AppConfig::default();
    config.audio.volume = number(volume);
    config
}

#[test]
fn reload_rolls_back_config_when_library_fails() {
    let mut cm = make_temp_config_manager();
    cm.update_config(with_volume(0.5), 0, |_| Ok(())).unwrap();
    cm.add_wallpaper(entry("orig", "/orig.mp4", WallpaperType::Video)).unwrap();
    let outcome = cm.reload_config_and_library(
        FileRead::Data(Vec::new()),
        |_| Ok(with_volume(0.9)),
        FileRead::Data(b"\xff\xfe\x00invalid".to_vec()),
        no_library,
    );
    assert_eq!(outcome.failure.unwrap().code(), "Io");
    assert!(!outcome.changed);
    assert!((value(cm.get_config().audio.volume) - 0.5).abs() < f32::EPSILON);
    let wallpapers = cm.get_wallpapers();
    assert_eq!(wallpapers.len(), 1);
    assert_eq!(wallpapers[0].id, "orig");
}

#[test]
fn reload_updates_both_when_both_succeed() {
    let mut cm = make_temp_config_manager();
    cm.update_config(with_volume(0.5), 0, |_| Ok(())).unwrap();
    let outcome = cm.reload_config_and_library(
        FileRead::Data(Vec::new()),
        |_| Ok(with_volume(0.9)),
        FileRead::Data(Vec::new()),
        |_| {
            Ok(WallpaperLibrary {
                wallpapers: vec![entry("new", "/new.mp4", WallpaperType::Video)],
            })
        },
    );
    assert!(outcome.failure.is_none());
    assert!((value(cm.get_config().audio.volume) - 0.9).abs() < f32::EPSILON);
    let wallpapers = cm.get_wallpapers();
    assert_eq!(wallpapers.len(), 1);
    assert_eq!(wallpapers[0].id, "new");
    assert_eq!(wallpapers[0].normalized_path, "\\new.mp4");
}

#[test]
fn c11_config_load_failure_leaves_library_unchanged() {
    let mut cm = make_temp_config_manager();
    let mut config = AppConfig::default();
    config.gif.balanced_keep_frames = 7;
    cm.update_config(config, 0, |_| Ok(())).unwrap();
    cm.add_wallpaper(entry("keep", "/keep.mp4", WallpaperType::Video)).unwrap();
    let outcome = cm.reload_config_and_library(
        FileRead::Data(vec![0xFF, 0xFE]),
        no_config,
        FileRead::Missing,
        no_library,
    );
    assert!(outcome.failure.is_some());
    assert_eq!(cm.get_config().gif.balanced_keep_frames, 7);
    assert_eq!(cm.get_wallpapers().len(), 1);
}

#[test]
fn c11_library_load_failure_leaves_config_unchanged() {
    let mut cm = make_temp_config_manager();
    let mut config = AppConfig::default();
    config.gif.balanced_keep_frames = 7;
    cm.update_config(config, 0, |_| Ok(())).unwrap();
    cm.add_wallpaper(entry("keep", "/keep.mp4", WallpaperType::Video)).unwrap();
    let outcome = cm.reload_config_and_library(
        FileRead::Missing,
        no_config,
        FileRead::Data(vec![0xFF, 0xFE]),
        no_library,
    );
    assert!(outcome.failure.is_some());
    assert_eq!(cm.get_config().gif.balanced_keep_frames, 7);
    assert_eq!(cm.get_wallpapers()[0].id, "keep");
}

#[test]
fn a_reload_tells_of_changes_and_errors() {
    let mut cm = make_temp_config_manager();
    let bad = || FileRead::Data(b"= =".to_vec());
    let quiet = cm.reload_config_and_library(bad(), |s| Err(fault(&s)), bad(), |s| Err(fault(&s)));
    assert!(!quiet.changed);
    assert!(quiet.errors.is_empty());
    assert_eq!(cm.drain_pending_config_errors().len(), 2);

    cm.set_on_config_changed(Box::new(|| {}));
    cm.set_on_config_error(Box::new(|_| {}));
    let told = cm.reload_config_and_library(bad(), |s| Err(fault(&s)), bad(), |s| Err(fault(&s)));
    assert!(told.changed);
    assert!(cm.on_config_changed().is_some());
    assert_eq!(told.errors.len(), 2);
    assert_eq!(told.errors[0].kind, ConfigKind::Config);
    assert_eq!(told.errors[1].kind, ConfigKind::Library);
    assert!(cm.drain_pending_config_errors().is_empty());
}

#[test]
fn v41_c002_atomic_write_preserves_data_on_multiple_writes() {
    let mut cm = make_temp_config_manager();
    let mut cfg = cm.get_config();
    cfg.audio.volume = number(0.42);
    cfg.general.auto_start = true;
    let mut on_disk = None;
    cm.update_config(cfg, 0, |c| {
        on_disk = Some(c);
        Ok(())
    })
    .unwrap();
    let (reloaded, err) =
        load_config("config.toml", FileRead::Data(Vec::new()), |_| Ok(on_disk.unwrap())).unwrap();
    assert!(err.is_none());
    assert!((value(reloaded.audio.volume) - 0.42).abs() < f32::EPSILON);
    assert!(reloaded.general.auto_start);
}

#[test]
fn cleanup_after_spawn_failure_resets_state() {
    let mut cm = make_temp_config_manager();
    assert!(!cm.is_periodic_save_running());
    cm.start_periodic_save();
    assert!(cm.is_periodic_save_running());
    assert!(cm.has_stop_signal());
    cm.cleanup_after_periodic_save_spawn_failure();
    assert!(!cm.is_periodic_save_running());
    assert!(!cm.has_stop_signal());
}

#[test]
fn watching_starts_and_stops() {
    let mut cm = make_temp_config_manager();
    let error = cm.start_watching(Err("no such file".to_string())).unwrap_err();
    assert_eq!(error.code(), "FileWatcher");
    assert!(!cm.is_watching());
    cm.start_watching(Ok(())).unwrap();
    assert!(cm.is_watching());
    assert!(cm.is_periodic_save_running());
    cm.stop_watching();
    cm.stop_watching();
    assert!(!cm.is_watching());
    assert!(cm.shutdown_periodic_save());
    assert!(!cm.shutdown_periodic_save());
    assert!(!cm.is_periodic_save_running());
}

#[test]
fn events_are_ignored_for_a_while() {
    let mut watch = WatchLoop::new(0);
    assert_eq!(watch.before_wait(true), WatchStep::Wait);
    assert_eq!(watch.before_wait(false), WatchStep::Stop);
    assert_eq!(watch.on_event(WatchEvent::Changed, 499 * MS, None), WatchStep::Wait);
    assert_eq!(watch.on_event(WatchEvent::Changed, 500 * MS, None), WatchStep::Reload);
    assert_eq!(watch.on_event(WatchEvent::Changed, 999 * MS, None), WatchStep::Wait);
    let saved = Some(1000 * MS);
    assert_eq!(watch.on_event(WatchEvent::Changed, 2999 * MS, saved), WatchStep::Wait);
    assert_eq!(watch.on_event(WatchEvent::Changed, 3000 * MS, saved), WatchStep::Reload);
    assert_eq!(watch.last_reload, 3000 * MS);
    assert_eq!(watch.on_event(WatchEvent::Timeout, 9000 * MS, None), WatchStep::Wait);
    assert_eq!(watch.on_event(WatchEvent::Disconnected, 9000 * MS, None), WatchStep::Stop);
}

#[test]
fn changes_are_written_from_time_to_time() {
    assert_eq!(periodic_step(PeriodicEvent::Due), PeriodicStep::Save);
    assert_eq!(periodic_step(PeriodicEvent::Shutdown), PeriodicStep::Stop);
    assert_eq!(periodic_step(PeriodicEvent::Disconnected), PeriodicStep::Stop);
}

#[test]
fn the_data_root_is_settled_once() {
    let places = DataPlaces {
        environment: Some(String::new()),
        program_dir: None,
        user_data_dir: Some("C:\\Users\\me".to_string()),
    };
    assert_eq!(resolve_data_root(&places), "C:\\Users\\me\\mirrorstar");
    let nowhere = DataPlaces { environment: None, program_dir: None, user_data_dir: None };
    assert_eq!(resolve_data_root(&nowhere), ".");
    let all = DataPlaces {
        environment: Some("E:\\dev".to_string()),
        program_dir: Some("C:\\app".to_string()),
        user_data_dir: None,
    };
    assert_eq!(resolve_data_root(&all), "E:\\dev");
    let installed = DataPlaces { environment: None, ..all };
    let mut root = None;
    assert_eq!(data_root(&mut root, &installed), "C:\\app");
    init_data_root(&mut root, "late".to_string());
    assert_eq!(Manager::data_dir(&mut root, &places).unwrap(), "C:\\app");
    let mut root = None;
    init_data_root(&mut root, "early".to_string());
    assert_eq!(data_root(&mut root, &installed), "early");
}

#[test]
fn a_manager_opens_the_data_root() {
    let places = DataPlaces {
        environment: Some("E:\\dev".to_string()),
        program_dir: None,
        user_data_dir: None,
    };
    let mut root = None;
    let mut asked = String::new();
    let mut cm: Manager = ConfigManager::new(
        &mut root,
        &places,
        |dir| {
            asked = dir;
            OpenedDir {
                created: Ok(()),
                config_read: FileRead::Missing,
                library_read: FileRead::Data(b"= =".to_vec()),
            }
        },
        no_config,
        |s| Err(fault(&s)),
    )
    .unwrap();
    assert_eq!(asked, "E:\\dev");
    assert_eq!(root.as_deref(), Some("E:\\dev"));
    assert_eq!(cm.config_path(), "E:\\dev\\config.toml");
    assert_eq!(cm.drain_pending_config_errors()[0].kind, ConfigKind::Library);
}

#[test]
fn only_a_change_of_a_file_counts() {
    assert_eq!(watch_event_of(FileChange::Modify), Some(WatchEvent::Changed));
    for change in [
        FileChange::Any,
        FileChange::Access,
        FileChange::Create,
        FileChange::Remove,
        FileChange::Other,
    ] {
        assert_eq!(watch_event_of(change), None);
    }
}
