use mirrorstar_core::config::playback::{
    PlaybackState, PlaybackStore, PLAYBACK_SCHEMA_VERSION,
};
use mirrorstar_core::keyed::StringMap;

#[test]
fn default_state_is_empty_with_schema_version() {
    let state = PlaybackState::default();
    assert_eq!(state.version, PLAYBACK_SCHEMA_VERSION);
    assert!(state.units.is_empty());
}

#[test]
fn ensure_unit_creates_and_reuses_by_key() {
    let mut state = PlaybackState::default();
    {
        let unit = state.ensure_unit("m0".to_string());
        unit.current_wallpaper_id = Some("w1".to_string());
        unit.active_pool = Some("p1".to_string());
    }
    assert_eq!(state.units.len(), 1);
    let unit = state.ensure_unit("m0".to_string());
    assert_eq!(unit.key, "m0");
    assert_eq!(unit.current_wallpaper_id.as_deref(), Some("w1"));
    assert_eq!(unit.active_pool.as_deref(), Some("p1"));
    assert_eq!(state.units.len(), 1);
    let unit = state.ensure_unit("global".to_string());
    assert_eq!(unit.key, "global");
    assert!(unit.current_wallpaper_id.is_none());
    assert!(unit.active_pool.is_none());
    assert!(!unit.enabled);
}

#[test]
fn what_was_read_is_used() {
    let store = PlaybackStore::new_in_dir("C:\\data");
    let mut state = PlaybackState::default();
    let unit = state.ensure_unit("m0".to_string());
    unit.current_wallpaper_id = Some("w2".to_string());
    unit.active_pool = Some("p9".to_string());
    unit.order_cursor = Some("w2".to_string());
    unit.bag_remaining = vec!["w3".to_string(), "w1".to_string()];
    unit.enabled = true;
    let loaded = store.load(Some(state));
    assert_eq!(loaded.version, PLAYBACK_SCHEMA_VERSION);
    let u = loaded.units.get("m0").unwrap();
    assert_eq!(u.current_wallpaper_id.as_deref(), Some("w2"));
    assert_eq!(u.active_pool.as_deref(), Some("p9"));
    assert_eq!(u.order_cursor.as_deref(), Some("w2"));
    assert_eq!(u.bag_remaining, vec!["w3".to_string(), "w1".to_string()]);
    assert!(u.enabled);
}

#[test]
fn load_fallback_default_for_missing_file() {
    let state = PlaybackStore::new_in_dir("data").load(None);
    assert_eq!(state.version, PLAYBACK_SCHEMA_VERSION);
    assert!(state.units.is_empty());
}

#[test]
fn load_fallback_default_for_old_version() {
    let mut state = PlaybackState { version: 0, units: StringMap::new() };
    state.ensure_unit("m0".to_string());
    let loaded = PlaybackStore::new_in_dir("data").load(Some(state));
    assert_eq!(loaded.version, PLAYBACK_SCHEMA_VERSION);
    assert!(loaded.units.is_empty());
}

#[test]
fn the_store_is_a_file_of_its_directory() {
    assert_eq!(PlaybackStore::new_in_dir("C:\\data").path(), "C:\\data\\playback.toml");
    assert_eq!(PlaybackStore::new("C:\\data\\").path(), "C:\\data\\playback.toml");
    let write = PlaybackStore::new_in_dir("C:\\data").save();
    assert_eq!(write.path, "C:\\data\\playback.toml");
    assert_eq!(write.lock_path, "C:\\data\\playback.lock");
    assert_eq!(write.temp_path, "C:\\data\\playback.tmp");
}

#[test]
fn roundtrip_persists_state() {
    let store = PlaybackStore::new_in_dir("d");
    let mut state = PlaybackState::default();
    let unit = state.ensure_unit("m0".to_string());
    unit.current_wallpaper_id = Some("w2".to_string());
    unit.active_pool = Some("p9".to_string());
    unit.order_cursor = Some("w2".to_string());
    unit.bag_remaining = vec!["w3".to_string(), "w1".to_string()];
    unit.enabled = true;
    let write = store.save();
    assert_eq!(write.path, "d\\playback.toml");
    assert_eq!(write.lock_path, "d\\playback.lock");
    assert_eq!(write.temp_path, "d\\playback.tmp");
    let loaded = store.load(Some(state));
    assert_eq!(loaded.version, PLAYBACK_SCHEMA_VERSION);
    let u = loaded.units.get("m0").unwrap();
    assert_eq!(u.current_wallpaper_id.as_deref(), Some("w2"));
    assert_eq!(u.active_pool.as_deref(), Some("p9"));
    assert_eq!(u.order_cursor.as_deref(), Some("w2"));
    assert_eq!(u.bag_remaining, vec!["w3".to_string(), "w1".to_string()]);
    assert!(u.enabled);
}

#[test]
fn a_unit_is_found_again_as_it_was_left() {
    let mut state = PlaybackState::default();
    state.ensure_unit("b".to_string()).enabled = true;
    state.ensure_unit("a".to_string()).active_pool = Some("p".to_string());
    assert!(state.ensure_unit("b".to_string()).enabled);
    assert!(!state.ensure_unit("a".to_string()).enabled);
    assert_eq!(state.units.ordered_keys(), ["b", "a"]);
}
