use mirrorstar_core::config::manager::DisplayInfo;
use mirrorstar_core::config::settings::Arrangement;
use mirrorstar_core::desktop::native_wallpaper::{
    clear_native_wallpaper, is_native_supported, registry_open_failure, registry_write_failure,
    scaling_mode_to_style, set_native_wallpaper, wide_path, NativeStep,
};
use mirrorstar_core::desktop::window::{
    make_borderless, make_borderless_ex, remove_from_taskbar, set_mouse_passthrough,
    set_window_long_with_error, StyleChange, StyleNext, StyleSlot,
};
use mirrorstar_core::desktop::worker_w::{
    calculate_per_monitor_child_coords, can_place, compute_retry_wait_ms, embed_wallpaper,
    find_child_by_class, find_workerw_callback, find_workerw_fallback_callback,
    find_workerw_no_retry, get_system_wallpaper, place_wallpaper, refresh_desktop,
    restore_failure, restore_system_wallpaper, EmbedEvent, EmbedNext, EmbedStage, Rect,
    SearchEvent, SearchNext, SearchStage, SeenWindow, TopWindow, WindowTree,
};
use mirrorstar_core::desktop::{
    build_display_info, enumerate_displays, extract_utf16_string, DesktopIntegrator,
    MonitorReport, RemoveStep, RestoreStep,
};
use mirrorstar_core::wallpaper::ScalingMode;
use mirrorstar_core::MirrorStarError;

fn wide(s: &str) -> Vec<u16> {
    s.encode_utf16().collect()
}

fn ended(s: &str) -> Vec<u16> {
    s.encode_utf16().chain(std::iter::once(0)).collect()
}

fn display(id: &str, x: i32, y: i32) -> DisplayInfo {
    DisplayInfo {
        id: id.to_string(),
        name: "display".to_string(),
        width: 1920,
        height: 1080,
        x,
        y,
        is_primary: x == 0,
        dpi: 96,
        current_wallpaper: None,
    }
}

#[test]
fn extract_utf16_string_with_null_terminator() {
    let mut buf = [0u16; 32];
    for (i, c) in "Display1".encode_utf16().enumerate() {
        buf[i] = c;
    }
    assert_eq!(extract_utf16_string(&buf), "Display1");
}

#[test]
fn extract_utf16_string_without_null_terminator() {
    let buf: Vec<u16> = "AB".encode_utf16().collect();
    assert_eq!(extract_utf16_string(&buf), "AB");
}

#[test]
fn extract_utf16_string_empty_buffer() {
    let buf: [u16; 0] = [];
    assert_eq!(extract_utf16_string(&buf), "");
}

#[test]
fn extract_utf16_string_all_zeros() {
    let buf = [0u16; 32];
    assert_eq!(extract_utf16_string(&buf), "");
}

#[test]
fn extract_utf16_string_first_char_null() {
    let mut buf = [0u16; 8];
    buf[0] = 0;
    assert_eq!(extract_utf16_string(&buf), "");
}

#[test]
fn extract_utf16_string_chinese() {
    let mut buf = [0u16; 32];
    for (i, c) in "显示器".encode_utf16().enumerate() {
        buf[i] = c;
    }
    assert_eq!(extract_utf16_string(&buf), "显示器");
}

#[test]
fn build_display_info_first_display() {
    let rect = Rect {
        left: 0,
        top: 0,
        right: 1920,
        bottom: 1080,
    };
    let info = build_display_info(0, "\\\\.\\DISPLAY1".to_string(), rect, true, 96);
    assert_eq!(info.id, "\\\\.\\DISPLAY1");
    assert_eq!(info.name, "显示器 1");
    assert_eq!(info.width, 1920);
    assert_eq!(info.height, 1080);
    assert_eq!(info.x, 0);
    assert_eq!(info.y, 0);
    assert!(info.is_primary);
    assert_eq!(info.dpi, 96);
    assert!(info.current_wallpaper.is_none());
}

#[test]
fn build_display_info_second_display() {
    let rect = Rect {
        left: -1920,
        top: 0,
        right: 0,
        bottom: 1080,
    };
    let info = build_display_info(1, "\\\\.\\DISPLAY2".to_string(), rect, false, 144);
    assert_eq!(info.name, "显示器 2");
    assert!(!info.is_primary);
    assert_eq!(info.dpi, 144);
    assert_eq!(info.x, -1920);
    assert_eq!(info.y, 0);
    assert_eq!(info.width, 1920);
    assert_eq!(info.height, 1080);
}

#[test]
fn build_display_info_zero_size_rect() {
    let rect = Rect {
        left: 100,
        top: 100,
        right: 100,
        bottom: 100,
    };
    let info = build_display_info(0, "X".to_string(), rect, false, 96);
    assert_eq!(info.width, 0);
    assert_eq!(info.height, 0);
    assert_eq!(info.x, 100);
    assert_eq!(info.y, 100);
}

#[test]
fn build_display_info_name_uses_one_based_index() {
    for n in 0..5 {
        let info = build_display_info(n, "id".to_string(), Rect { left: 0, top: 0, right: 0, bottom: 0 }, false, 96);
        assert_eq!(info.name, format!("显示器 {}", n + 1));
    }
}

#[test]
fn compute_retry_wait_ms_first_iteration() {
    assert_eq!(compute_retry_wait_ms(0), 100);
}

#[test]
fn compute_retry_wait_ms_increments_by_50() {
    assert_eq!(compute_retry_wait_ms(1), 150);
    assert_eq!(compute_retry_wait_ms(2), 200);
    assert_eq!(compute_retry_wait_ms(3), 250);
}

#[test]
fn compute_retry_wait_ms_last_iteration() {
    assert_eq!(compute_retry_wait_ms(5), 350);
}

#[test]
fn compute_retry_wait_ms_formula() {
    let mut prev = 0u64;
    for i in 0..6u32 {
        let wait = compute_retry_wait_ms(i);
        assert_eq!(wait, 100 + (i as u64) * 50);
        assert!(wait > prev);
        prev = wait;
    }
}

#[test]
fn d002_permonitor_negative_coords_correct_offset() {
    let display = DisplayInfo {
        id: "\\\\.\\DISPLAY2".to_string(),
        name: "显示器 2".to_string(),
        width: 1920,
        height: 1080,
        x: -1920,
        y: 0,
        is_primary: false,
        dpi: 96,
        current_wallpaper: None,
    };
    let workerw_rect = Rect {
        left: -1920,
        top: 0,
        right: 1920,
        bottom: 1080,
    };
    let (x, y, width, height) = calculate_per_monitor_child_coords(&display, &workerw_rect);
    assert_eq!(x, 0);
    assert_eq!(y, 0);
    assert_eq!(width, 1920);
    assert_eq!(height, 1080);
}

#[test]
fn d002_permonitor_workerw_at_origin_unchanged() {
    let display = DisplayInfo {
        id: "\\\\.\\DISPLAY1".to_string(),
        name: "显示器 1".to_string(),
        width: 1920,
        height: 1080,
        x: 0,
        y: 0,
        is_primary: true,
        dpi: 96,
        current_wallpaper: None,
    };
    let workerw_rect = Rect {
        left: 0,
        top: 0,
        right: 1920,
        bottom: 1080,
    };
    let (x, y, width, height) = calculate_per_monitor_child_coords(&display, &workerw_rect);
    assert_eq!((x, y, width, height), (0, 0, 1920, 1080));
}

#[test]
fn d002_permonitor_secondary_display_positive_offset() {
    let display = DisplayInfo {
        id: "\\\\.\\DISPLAY2".to_string(),
        name: "显示器 2".to_string(),
        width: 1920,
        height: 1080,
        x: 1920,
        y: 0,
        is_primary: false,
        dpi: 96,
        current_wallpaper: None,
    };
    let workerw_rect = Rect {
        left: 0,
        top: 0,
        right: 3840,
        bottom: 1080,
    };
    let (x, y, width, height) = calculate_per_monitor_child_coords(&display, &workerw_rect);
    assert_eq!((x, y, width, height), (1920, 0, 1920, 1080));
}

#[test]
fn scaling_mode_to_style_mapping_is_stable() {
    assert_eq!(scaling_mode_to_style(ScalingMode::Center), ("0", "0"));
    assert_eq!(scaling_mode_to_style(ScalingMode::Stretch), ("2", "0"));
    assert_eq!(scaling_mode_to_style(ScalingMode::Fit), ("6", "0"));
    assert_eq!(scaling_mode_to_style(ScalingMode::Fill), ("10", "0"));
    assert_eq!(scaling_mode_to_style(ScalingMode::Original), ("0", "0"));
}

#[test]
fn tile_wallpaper_always_zero_for_supported_modes() {
    for mode in [
        ScalingMode::Center,
        ScalingMode::Stretch,
        ScalingMode::Fit,
        ScalingMode::Fill,
        ScalingMode::Original,
    ] {
        let (_, tile) = scaling_mode_to_style(mode);
        assert_eq!(tile, "0");
    }
}

#[test]
fn default_scaling_mode_is_fill() {
    let default: ScalingMode = ScalingMode::default();
    assert!(matches!(default, ScalingMode::Fill));
}

#[test]
fn rollback_contract_data_flow() {
    let old_with_backup: Option<(String, String)> = Some(("6".to_string(), "0".to_string()));
    let (new_style, new_tile) = scaling_mode_to_style(ScalingMode::Fill);
    if let Some((old_style, old_tile)) = &old_with_backup {
        assert_eq!(old_style, "6");
        assert_eq!(old_tile, "0");
        assert_ne!(
            (old_style.as_str(), old_tile.as_str()),
            (new_style, new_tile)
        );
    } else {
        panic!("no old values");
    }
    let old_no_backup: Option<(String, String)> = None;
    assert!(old_no_backup.is_none());
    let old_same_as_new: Option<(String, String)> =
        Some((new_style.to_string(), new_tile.to_string()));
    if let Some((old_style, old_tile)) = &old_same_as_new {
        assert_eq!(
            (old_style.as_str(), old_tile.as_str()),
            (new_style, new_tile)
        );
    }
}

#[test]
fn is_native_supported_recognizes_native_formats() {
    assert!(is_native_supported("image.jpg"));
    assert!(is_native_supported("image.JPEG"));
    assert!(is_native_supported("image.png"));
    assert!(is_native_supported("image.bmp"));
    assert!(is_native_supported("image.tif"));
    assert!(is_native_supported("image.tiff"));
    assert!(is_native_supported("image.dib"));
    assert!(!is_native_supported("image.gif"));
    assert!(!is_native_supported("image.webp"));
    assert!(!is_native_supported("image.webm"));
    assert!(!is_native_supported("image.mp4"));
    assert!(!is_native_supported("image"));
}

#[test]
fn desktop_integrator_new_state() {
    let integrator = DesktopIntegrator::new(None);
    assert_eq!(integrator.handles(), (None, None));
    assert!(!integrator.is_workerw_valid(true, true));
}

#[test]
fn desktop_integrator_is_workerw_valid_uninitialized() {
    let integrator = DesktopIntegrator::new(None);
    assert!(!integrator.is_workerw_valid(false, false));
    assert!(!integrator.is_workerw_valid(true, true));
}

#[test]
fn desktop_integrator_getters_uninitialized() {
    let integrator = DesktopIntegrator::new(None);
    assert!(integrator.handles().0.is_none());
    assert!(integrator.handles().1.is_none());
}

#[test]
fn desktop_integrator_restore_original_wallpaper_returns_result() {
    let integrator = DesktopIntegrator::new(Some("C:\\a.jpg".to_string()));
    match integrator.restore_original_wallpaper(None) {
        Ok(RestoreStep::Restore(path)) => assert_eq!(path, ended("C:\\a.jpg")),
        other => panic!("{:?}", other),
    }
}

#[test]
fn desktop_integrator_restore_original_wallpaper_propagates_err() {
    let integrator = DesktopIntegrator::new(Some("a\0b".to_string()));
    let error = integrator.restore_original_wallpaper(None).unwrap_err();
    assert_eq!(error.code(), "InvalidPath");
    assert!(restore_failure("denied").message().ends_with("恢复系统壁纸失败: denied"));
}

#[test]
fn desktop_integrator_restore_original_wallpaper_none_returns_ok() {
    let integrator = DesktopIntegrator::new(None);
    match integrator.restore_original_wallpaper(Some("b.jpg".to_string())) {
        Ok(RestoreStep::Refresh(Some(path))) => assert_eq!(path, ended("b.jpg")),
        other => panic!("{:?}", other),
    }
    match integrator.restore_original_wallpaper(None) {
        Ok(RestoreStep::Refresh(None)) => {}
        other => panic!("{:?}", other),
    }
}

fn report(device: &str, rect: Rect, flags: u32, dpi: Option<u32>) -> Option<MonitorReport> {
    Some(MonitorReport { device: ended(device), rect, flags, dpi })
}

#[test]
fn enumerate_displays_no_panic() {
    let reports = vec![
        report("A", Rect { left: 0, top: 0, right: 10, bottom: 20 }, 1, Some(144)),
        None,
        report("B", Rect { left: -5, top: 1, right: 0, bottom: 2 }, 0, None),
    ];
    let displays = enumerate_displays(true, &reports);
    assert_eq!(displays.len(), 2);
    for d in &displays {
        assert!(!d.id.is_empty());
        assert!(!d.name.is_empty());
        assert!(d.dpi > 0);
    }
    assert_eq!(displays[0].id, "A");
    assert!(displays[0].is_primary);
    assert_eq!(displays[0].dpi, 144);
    assert_eq!(displays[1].name, "显示器 2");
    assert!(!displays[1].is_primary);
    assert_eq!(displays[1].dpi, 96);
}

#[test]
fn enumerate_displays_failure_branch_does_not_panic_on_happy_path() {
    let reports = vec![report("A", Rect { left: 0, top: 0, right: 1, bottom: 1 }, 1, None)];
    assert_eq!(enumerate_displays(true, &reports).len(), 1);
    assert_eq!(enumerate_displays(false, &reports).len(), 0);
}

#[test]
fn d005_remove_wallpaper_hides_window_after_setparent() {
    let mut integrator = DesktopIntegrator::new(None);
    integrator.embed_wallpaper(7, "display1", Arrangement::PerMonitor, Ok(())).unwrap();
    match integrator.remove_wallpaper("display1", true) {
        RemoveStep::CheckWindow(7) => {}
        other => panic!("{:?}", other),
    }
    match integrator.on_window_checked("display1", true) {
        RemoveStep::Detach(7) => {}
        other => panic!("{:?}", other),
    }
    assert_eq!(integrator.on_detached("display1", Ok(())).unwrap(), 7);
    assert_eq!(integrator.active_wallpaper("display1"), None);
}

#[test]
fn v41_d001_embed_wallpaper_documents_partial_failure_contract() {
    let mut integrator = DesktopIntegrator::new(None);
    let failure = Err(MirrorStarError::DesktopIntegration("SetParent".to_string()));
    assert!(integrator.embed_wallpaper(7, "display1", Arrangement::Span, failure).is_err());
    assert_eq!(integrator.active_wallpaper("display1"), None);
}

#[test]
fn v41_d002_setparent_failure_keeps_entry() {
    let mut integrator = DesktopIntegrator::new(None);
    integrator.embed_wallpaper(7, "display1", Arrangement::Span, Ok(())).unwrap();
    integrator.remove_wallpaper("display1", true);
    integrator.on_window_checked("display1", true);
    let error = integrator.on_detached("display1", Err("denied".to_string())).unwrap_err();
    assert!(error.message().ends_with("SetParent 分离窗口失败: denied"));
    assert_eq!(integrator.active_wallpaper("display1"), Some((7, Arrangement::Span)));

    match integrator.on_window_checked("display1", false) {
        RemoveStep::Done => {}
        other => panic!("{:?}", other),
    }
    assert_eq!(integrator.active_wallpaper("display1"), None);

    match integrator.remove_wallpaper("nonexistent", true) {
        RemoveStep::Done => {}
        other => panic!("{:?}", other),
    }
}

#[test]
fn a_lost_wallpaper_window_is_searched_once() {
    let mut integrator = DesktopIntegrator::new(None);
    let missing = integrator
        .ensure_initialized(false, || Err(MirrorStarError::WorkerWNotFound))
        .unwrap_err();
    assert_eq!(missing.code(), "WorkerWNotFound");
    assert!(integrator.embed_target().is_err());
    assert!(integrator.ensure_initialized(false, || Ok((1, 2))).unwrap().is_empty());
    assert_eq!(integrator.handles(), (Some(1), Some(2)));
    assert_eq!(integrator.embed_target().unwrap(), (2, 1));
    assert!(integrator.is_workerw_valid(true, true));
    assert!(!integrator.is_workerw_valid(true, false));
    integrator.embed_wallpaper(7, "d1", Arrangement::PerMonitor, Ok(())).unwrap();
    assert_eq!(integrator.check_and_reinitialize(true, || Ok((9, 9))).unwrap(), None);
    assert_eq!(
        integrator.check_and_reinitialize(false, || Ok((3, 4))).unwrap(),
        Some(vec!["d1".to_string()])
    );
    integrator.reembedded("d1", false);
    assert_eq!(integrator.active_wallpaper("d1"), None);
}

#[test]
fn the_list_of_displays_is_kept_for_a_while() {
    let mut integrator = DesktopIntegrator::new(None);
    let first = integrator.get_cached_displays(0, || (vec![display("a", 0, 0)], 0));
    assert_eq!(first.len(), 1);
    let kept = integrator.get_cached_displays(4_999_999_999, || panic!("the list is young"));
    assert_eq!(kept[0].id, "a");
    let made_anew =
        integrator.get_cached_displays(5_000_000_000, || (Vec::new(), 5_000_000_000));
    assert_eq!(made_anew.len(), 0);
}

#[test]
fn text_from_the_system_keeps_unpaired_surrogates_out() {
    assert_eq!(extract_utf16_string(&[0x41, 0xD800, 0x42]), "A\u{FFFD}B");
    assert_eq!(extract_utf16_string(&[0xD83D, 0xDE00, 0]), "😀");
    assert_eq!(wide_path("😀").unwrap(), [0xD83D, 0xDE00, 0]);
    assert_eq!(wide_path("a\0b").unwrap_err().code(), "InvalidPath");
}

fn tree(matching: usize, children: Vec<WindowTree>) -> WindowTree {
    WindowTree { matching, children }
}

fn seen(handle: usize, class: &str) -> SeenWindow {
    SeenWindow { handle, class_name: wide(class) }
}

#[test]
fn a_child_is_searched_three_levels_deep() {
    let deep = tree(0, vec![tree(0, vec![]), tree(0, vec![tree(5, vec![])])]);
    assert_eq!(find_child_by_class(&deep, 3), Some(5));
    assert_eq!(find_child_by_class(&deep, 2), None);
    assert_eq!(find_child_by_class(&tree(4, vec![tree(5, vec![])]), 3), Some(4));
}

#[test]
fn find_workerw_callback_path_no_panic() {
    let top = TopWindow {
        class_name: wide("Progman"),
        tree: tree(9, vec![]),
        next: seen(11, "WorkerW"),
        prev: seen(12, "WorkerW"),
    };
    assert_eq!(find_workerw_callback(&top), Some(11));
    assert_eq!(find_workerw_fallback_callback(&top), None);
}

#[test]
fn find_workerw_fallback_callback_path_no_panic() {
    let top = TopWindow {
        class_name: wide("WorkerW"),
        tree: tree(9, vec![]),
        next: seen(0, "WorkerW"),
        prev: seen(12, "WorkerW"),
    };
    assert_eq!(find_workerw_callback(&top), Some(12));
    assert_eq!(find_workerw_fallback_callback(&top), Some(12));
    let without_icons = TopWindow { tree: tree(0, vec![]), ..top };
    assert_eq!(find_workerw_callback(&without_icons), None);
}

#[test]
fn the_search_goes_through_its_stages() {
    let mut search = find_workerw_no_retry();
    let stages = [
        (SearchEvent::Progman(Ok(1)), SearchStage::ShellView),
        (SearchEvent::ShellView(2), SearchStage::Parent),
        (SearchEvent::Parent(seen(1, "Progman")), SearchStage::Sibling),
        (SearchEvent::Sibling(seen(0, "")), SearchStage::Direct),
        (SearchEvent::Enumerated { found: None, error: None }, SearchStage::Spawn),
        (SearchEvent::Spawned, SearchStage::AfterSpawn),
        (SearchEvent::Enumerated { found: None, error: None }, SearchStage::Fallback),
    ];
    for (event, stage) in stages {
        match search.step(event) {
            SearchNext::Go(s) => assert_eq!(s, stage),
            SearchNext::Finished(_) => panic!("finished too early"),
        }
    }
    match search.step(SearchEvent::Enumerated { found: None, error: None }) {
        SearchNext::Finished(Err(e)) => assert_eq!(e.code(), "WorkerWNotFound"),
        _ => panic!("nothing was there"),
    }
}

#[test]
fn v41_d005_enumwindows_failure_returns_err_contract() {
    let mut search = find_workerw_no_retry();
    search.step(SearchEvent::Progman(Ok(1)));
    search.step(SearchEvent::ShellView(0));
    match search.step(SearchEvent::Enumerated { found: None, error: Some("denied".to_string()) }) {
        SearchNext::Finished(Err(e)) => {
            assert_eq!(e.code(), "DesktopIntegration");
            assert!(e
                .message()
                .ends_with("EnumWindows 调用失败（Step 2: 直接查找 WorkerW）: denied"));
        }
        _ => panic!("the walk broke off"),
    }
    let mut search = find_workerw_no_retry();
    search.step(SearchEvent::Progman(Ok(1)));
    search.step(SearchEvent::ShellView(0));
    match search.step(SearchEvent::Enumerated { found: Some(6), error: Some("stop".to_string()) }) {
        SearchNext::Finished(Ok(windows)) => assert_eq!(windows, (1, 6)),
        _ => panic!("a window was found"),
    }
    let mut search = find_workerw_no_retry();
    match search.step(SearchEvent::Progman(Ok(0))) {
        SearchNext::Finished(Err(e)) => assert!(e.message().ends_with("Progman 窗口句柄无效")),
        _ => panic!("no such window"),
    }
}

#[test]
fn a_wallpaper_is_embedded_step_by_step() {
    let displays = vec![display("d1", 0, 0), display("d2", 1920, 0)];
    let mut job = embed_wallpaper("d2", Arrangement::PerMonitor);
    let screen = Rect { left: -100, top: -50, right: 3840, bottom: 1080 };
    let steps = [
        (EmbedEvent::Borderless(Ok(())), EmbedStage::Taskbar),
        (EmbedEvent::Taskbar, EmbedStage::Measure),
        (EmbedEvent::Measured(Ok(screen)), EmbedStage::Reparent),
        (EmbedEvent::Reparented(Ok(())), EmbedStage::Position),
        (EmbedEvent::Positioned(Ok(())), EmbedStage::Focus),
        (EmbedEvent::Focused, EmbedStage::Show),
    ];
    for (event, stage) in steps {
        match job.step(&displays, event) {
            EmbedNext::Go(s) => assert_eq!(s, stage),
            EmbedNext::Finished(_) => panic!("finished too early"),
        }
    }
    assert_eq!(job.target(), (2020, 50, 1920, 1080));
    match job.step(&displays, EmbedEvent::Shown) {
        EmbedNext::Finished(Ok(())) => {}
        _ => panic!("all is done"),
    }
    let mut job = embed_wallpaper("d2", Arrangement::Span);
    match job.step(&displays, EmbedEvent::Borderless(set_window_long_with_error(5, "style"))) {
        EmbedNext::Finished(Err(e)) => assert!(e
            .message()
            .ends_with("SetWindowLongPtrW 失败：style，GetLastError: 0x00000005")),
        _ => panic!("the frame stayed"),
    }
}

#[test]
fn wallpapers_are_placed_by_their_arrangement() {
    let displays = vec![display("d1", 0, 0), display("d2", 1920, 0)];
    let screen = Rect { left: -100, top: -50, right: 3840, bottom: 1080 };
    assert_eq!(place_wallpaper(Arrangement::Span, "d2", &displays, &screen), (0, 0, 3940, 1130));
    assert_eq!(
        place_wallpaper(Arrangement::PerMonitor, "d2", &displays, &screen),
        (2020, 50, 1920, 1080)
    );
}

#[test]
fn get_system_wallpaper_no_panic() {
    let path = get_system_wallpaper(true, &ended("C:\\a.jpg")).unwrap();
    assert_eq!(path, "C:\\a.jpg");
    assert!(!path.contains('\0'));
    assert_eq!(get_system_wallpaper(false, &ended("x")), None);
    assert_eq!(get_system_wallpaper(true, &[0, 0x41]), None);
}

#[test]
fn refresh_desktop_no_panic() {
    assert_eq!(refresh_desktop(None), None);
    assert_eq!(refresh_desktop(Some("a".to_string())), Some(vec![0x61, 0]));
    assert_eq!(refresh_desktop(Some("a\0".to_string())), None);
}

#[test]
fn restore_system_wallpaper_empty_path_returns_ok() {
    assert_eq!(restore_system_wallpaper("").unwrap(), [0]);
}

#[test]
fn d003_make_borderless_returns_err_on_setwindowlongptr_failure() {
    assert!(set_window_long_with_error(0, "无法设置 GWL_STYLE 窗口样式").is_ok());
    let error = set_window_long_with_error(0xABC, "无法设置 GWL_EXSTYLE 扩展样式").unwrap_err();
    assert_eq!(error.code(), "DesktopIntegration");
    assert!(error
        .message()
        .ends_with("SetWindowLongPtrW 失败：无法设置 GWL_EXSTYLE 扩展样式，GetLastError: 0x00000ABC"));
}

#[test]
fn styles_lose_their_frame_bits_only() {
    assert_eq!(make_borderless(0xFFFF_FFFF), 0xFF30_FFFF);
    assert_eq!(make_borderless(0x1000_0000), 0x1000_0000);
    assert_eq!(make_borderless(make_borderless(0x14CF_0001)), 0x1400_0001);
    assert_eq!(make_borderless_ex(0xFFFF_FFFF), !0x0206_0381);
    assert_eq!(remove_from_taskbar(0x0004_0000), 0x0800_0080);
    assert_eq!(set_mouse_passthrough(0, true), 0x0008_0020);
    assert_eq!(set_mouse_passthrough(0x0008_0020, false), 0x0008_0000);
}

#[test]
fn a_failed_picture_brings_the_old_values_back() {
    let old = Some(("6".to_string(), "0".to_string()));
    let job = set_native_wallpaper("C:\\a.jpg", ScalingMode::Fill, None, || old).unwrap();
    match job.start() {
        NativeStep::WriteStyle { style, tile } => {
            assert_eq!((style.as_str(), tile.as_str()), ("10", "0"))
        }
        other => panic!("{:?}", other),
    }
    let (job, step) = job.on_style_written(Ok(()));
    match step {
        NativeStep::SetImage { path } => assert_eq!(path, ended("C:\\a.jpg")),
        other => panic!("{:?}", other),
    }
    match job.on_image_set(Ok(())) {
        NativeStep::Finished(Ok(())) => {}
        other => panic!("{:?}", other),
    }
    match job.on_image_set(Err("denied".to_string())) {
        NativeStep::RollBack { style, tile, error } => {
            assert_eq!((style.as_str(), tile.as_str()), ("6", "0"));
            assert!(error.message().ends_with("设置壁纸失败: denied"));
        }
        other => panic!("{:?}", other),
    }
}

#[test]
fn v41_d004_write_wallpaper_style_documents_non_atomic_contract() {
    let old = Some(("6".to_string(), "0".to_string()));
    let job = set_native_wallpaper("C:\\a.jpg", ScalingMode::Fill, None, || old).unwrap();
    let (_, step) = job.on_style_written(Err(registry_write_failure("TileWallpaper", "denied")));
    match step {
        NativeStep::Finished(Err(error)) => {
            assert!(error.message().ends_with("写入 TileWallpaper 失败: denied"))
        }
        other => panic!("{:?}", other),
    }
    assert!(registry_open_failure("denied").message().ends_with("打开注册表失败: denied"));
}

#[test]
fn a_picture_without_old_values_just_fails() {
    let job = set_native_wallpaper("a\0b", ScalingMode::Fit, None, || None).unwrap();
    let (job, step) = job.on_style_written(Ok(()));
    match step {
        NativeStep::Finished(Err(error)) => assert_eq!(error.code(), "InvalidPath"),
        other => panic!("{:?}", other),
    }
    match job.on_image_set(Err("denied".to_string())) {
        NativeStep::Finished(Err(error)) => assert_eq!(error.code(), "DesktopIntegration"),
        other => panic!("{:?}", other),
    }
    let read = || panic!("a display is named");
    assert!(set_native_wallpaper("a", ScalingMode::Fit, Some("d1"), read).is_err());
    assert!(clear_native_wallpaper(Ok(())).is_ok());
    assert!(clear_native_wallpaper(Err("denied".to_string()))
        .unwrap_err()
        .message()
        .ends_with("清除壁纸失败: denied"));
}

#[test]
fn enumerate_displays_returns_vec() {
    let displays = enumerate_displays(true, &Vec::new());
    assert_eq!(displays.len(), 0);
    let failed = enumerate_displays(
        false,
        &vec![report("A", Rect { left: 0, top: 0, right: 1, bottom: 1 }, 1, None)],
    );
    assert_eq!(failed.len(), 0);
}

#[test]
fn desktop_integrator_enumerate_displays_method() {
    let integrator = DesktopIntegrator::default();
    let reports = vec![report("A", Rect { left: 0, top: 0, right: 1, bottom: 2 }, 1, None)];
    let displays = integrator.enumerate_displays(true, &reports);
    assert_eq!(displays, enumerate_displays(true, &reports));
    assert_eq!(displays[0].height, 2);
    assert_eq!(integrator.handles(), (None, None));
}

#[test]
fn the_frame_is_removed_from_both_styles_in_order() {
    assert_eq!(StyleChange::Frame.slot(), StyleSlot::Style);
    assert_eq!(StyleChange::Frame.apply(0xFFFF_FFFF_FFFF_FFFF), 0xFF30_FFFF);
    match StyleChange::Frame.on_set(0) {
        StyleNext::Change(StyleChange::FrameEx) => {}
        other => panic!("{:?}", other),
    }
    assert_eq!(StyleChange::FrameEx.slot(), StyleSlot::ExStyle);
    assert_eq!(StyleChange::FrameEx.apply(0x0206_0381), 0);
    match StyleChange::FrameEx.on_set(0) {
        StyleNext::Finished(Ok(())) => {}
        other => panic!("{:?}", other),
    }
    for (change, words) in [
        (StyleChange::Frame, "无法设置 GWL_STYLE 窗口样式，GetLastError: 0x00000005"),
        (StyleChange::FrameEx, "无法设置 GWL_EXSTYLE 扩展样式，GetLastError: 0x00000005"),
    ] {
        match change.on_set(5) {
            StyleNext::Finished(Err(error)) => assert!(error.message().ends_with(words)),
            other => panic!("{:?}", other),
        }
    }
}

#[test]
fn the_frame_is_drawn_anew_after_the_other_changes() {
    for change in [StyleChange::Taskbar, StyleChange::Passthrough { enabled: true }] {
        assert_eq!(change.slot(), StyleSlot::ExStyle);
        for last_error in [0, 5] {
            match change.on_set(last_error) {
                StyleNext::Refresh => {}
                other => panic!("{:?}", other),
            }
        }
    }
    assert_eq!(StyleChange::Taskbar.apply(0x0004_0000), 0x0800_0080);
    assert_eq!(StyleChange::Taskbar.context(), "无法从任务栏移除窗口（GWL_EXSTYLE）");
    assert_eq!(StyleChange::Passthrough { enabled: false }.apply(0x0008_0020), 0x0008_0000);
}

#[test]
fn only_the_display_of_a_wallpaper_has_to_have_a_place() {
    let rect = Rect { left: -100, top: 0, right: 100, bottom: 100 };
    let displays = vec![display("near", 0, 0), display("far", i32::MAX, 0)];
    assert!(can_place(Arrangement::PerMonitor, "near", &displays, &rect));
    assert!(!can_place(Arrangement::PerMonitor, "far", &displays, &rect));
    assert!(can_place(Arrangement::PerMonitor, "gone", &displays, &rect));
    assert!(can_place(Arrangement::Span, "far", &displays, &rect));
    let wide = Rect { left: i32::MIN, top: 0, right: 1, bottom: 1 };
    assert!(!can_place(Arrangement::Span, "near", &displays, &wide));
    let job = embed_wallpaper("far", Arrangement::PerMonitor);
    assert!(!job.can_place(&displays, &rect));
}
