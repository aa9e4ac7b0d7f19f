use yasr::{
    after_frame, FrameOutcome,
    badge_color, centered_rect, clamp_scroll, classify, classify_lowered, control_labels,
    drivers_path, intel_driver_dir, level_color, log_badge, monitor_summary, progress_line,
    render_node_path, select_monitor, Area, Key, KeyCommand, LogBuffer, LogLevel, MonitorError,
    Tint, TuiState, LOG_CAPACITY,
};

#[test]
fn classify_levels() {
    assert_eq!(classify("[libx264] Error while opening encoder"), LogLevel::Error);
    assert_eq!(classify("WARNING: deprecated pixel format"), LogLevel::Warning);
    assert_eq!(classify("warning: then an ERROR"), LogLevel::Error);
    assert_eq!(classify("frame=  120 fps= 30"), LogLevel::Info);
    assert_eq!(classify_lowered("Error"), LogLevel::Info);
    assert_eq!(classify_lowered("an error"), LogLevel::Error);
}

#[test]
fn colors() {
    assert_eq!(level_color(LogLevel::Error), Tint::Red);
    assert_eq!(level_color(LogLevel::Warning), Tint::Yellow);
    assert_eq!(level_color(LogLevel::Info), Tint::White);
    assert_eq!(badge_color(LogLevel::Info), Tint::Cyan);
    assert_eq!(badge_color(LogLevel::Error), Tint::Red);
}

#[test]
fn log_keeps_last_fifty() {
    let mut log = LogBuffer::new();
    assert!(log.is_empty());
    assert_eq!(log.max_level(), None);
    for i in 0..60 {
        log.push(LogLevel::Info, format!("line {i}"));
    }
    assert_eq!(log.len(), LOG_CAPACITY);
    let (top, lines) = log.window(0, 52);
    assert_eq!(top, 0);
    assert_eq!(lines.len(), 50);
    assert_eq!(lines[0].1, "line 10");
    assert_eq!(lines[49].1, "line 59");
}

#[test]
fn log_max_level_and_record() {
    let mut log = LogBuffer::new();
    log.record("all good".to_string());
    assert_eq!(log.max_level(), Some(LogLevel::Info));
    log.record("Warning: slow".to_string());
    log.record("fine".to_string());
    assert_eq!(log.max_level(), Some(LogLevel::Warning));
    log.record("error!".to_string());
    assert_eq!(log.max_level(), Some(LogLevel::Error));
    let (_, lines) = log.window(0, 10);
    assert_eq!(lines[3], (LogLevel::Error, "error!".to_string()));
}

#[test]
fn log_window_scrolls_within_bounds() {
    let mut log = LogBuffer::new();
    for i in 0..10 {
        log.push(LogLevel::Info, format!("{i}"));
    }
    let (top, lines) = log.window(8, 6);
    assert_eq!(top, 6);
    assert_eq!(lines.iter().map(|l| l.1.as_str()).collect::<Vec<_>>(), vec!["6", "7", "8", "9"]);
    let (top, lines) = log.window(2, 6);
    assert_eq!(top, 2);
    assert_eq!(lines.len(), 4);
    let (top, lines) = log.window(3, 1);
    assert_eq!(top, 3);
    assert!(lines.is_empty());
    assert_eq!(clamp_scroll(5, 20, 10), 0);
}

#[test]
fn keys_scroll_and_toggle_log() {
    let mut s = TuiState::new();
    assert_eq!(s.on_key(Key::Char('e'), true, false, 2), KeyCommand::Nothing);
    assert!(!s.show_log);
    s.on_key(Key::Char('e'), false, false, 2);
    assert!(s.show_log);
    s.on_key(Key::Down, false, false, 2);
    s.on_key(Key::Down, false, false, 2);
    s.on_key(Key::Up, false, false, 2);
    assert_eq!(s.log_scroll, 1);
    assert_eq!(s.selected, 0);
    assert_eq!(s.on_key(Key::Char(' '), false, false, 2), KeyCommand::Nothing);
    s.on_key(Key::Esc, false, false, 2);
    assert!(!s.show_log);
    s.on_key(Key::Up, false, false, 2);
    assert_eq!(s.log_scroll, 1);
}

#[test]
fn keys_choose_monitor_and_record() {
    let mut s = TuiState::new();
    s.on_key(Key::Right, false, false, 3);
    s.on_key(Key::Down, false, false, 3);
    s.on_key(Key::Right, false, false, 3);
    assert_eq!(s.selected, 2);
    s.on_key(Key::Up, false, false, 3);
    assert_eq!(s.selected, 1);
    assert_eq!(s.on_key(Key::Char(' '), false, false, 3), KeyCommand::StartRecording);
    s.on_key(Key::Left, false, true, 3);
    assert_eq!(s.selected, 1);
    assert_eq!(s.on_key(Key::Char(' '), false, true, 3), KeyCommand::StopRecording);
    assert_eq!(s.on_key(Key::Char('q'), false, true, 3), KeyCommand::Quit);
    s.on_key(Key::Left, false, false, 3);
    s.on_key(Key::Left, false, false, 3);
    assert_eq!(s.selected, 0);
    assert_eq!(s.on_key(Key::Other, false, false, 3), KeyCommand::Nothing);
}

#[test]
fn controls_and_badge() {
    assert_eq!(control_labels(true, 3), vec!["[Space] Stop", "[q] Quit"]);
    assert_eq!(control_labels(false, 3), vec!["[Space] Start", "[\u{2190}/\u{2192}] Monitor", "[q] Quit"]);
    assert_eq!(control_labels(false, 1), vec!["[Space] Start", "[q] Quit"]);
    assert_eq!(log_badge(LogLevel::Error, 7), " \u{26a0}[e] log (7)");
    assert_eq!(log_badge(LogLevel::Warning, 12), " [e] log (12)");
}

#[test]
fn centered_log_window() {
    let r = centered_rect(70, 60, Area { x: 0, y: 0, width: 100, height: 50 });
    assert_eq!(r, Area { x: 15, y: 10, width: 70, height: 30 });
}

#[test]
fn monitor_selection() {
    assert_eq!(select_monitor(None, 2), Ok(0));
    assert_eq!(select_monitor(Some(1), 2), Ok(1));
    assert_eq!(select_monitor(Some(2), 2), Err(MonitorError::NotFound { index: 2, available: 2 }));
    assert_eq!(select_monitor(None, 0), Err(MonitorError::NoMonitors));
    assert_eq!(MonitorError::NotFound { index: 2, available: 2 }.message(), "Monitor 2 not found (2 available)");
    assert_eq!(MonitorError::NoMonitors.message(), "No monitors found");
}

#[test]
fn printed_lines() {
    assert_eq!(monitor_summary(0, "eDP-1", 2560, 1600, true), "[0] eDP-1 (2560x1600 @ primary)");
    assert_eq!(monitor_summary(3, "HDMI-A-1", 1920, 1080, false), "[3] HDMI-A-1 (1920x1080 @ secondary)");
    assert_eq!(progress_line(12, 360), "\r  12s  360 frames");
}

#[test]
fn vaapi_paths() {
    assert_eq!(render_node_path(128), "/dev/dri/renderD128");
    let entries: Vec<String> = vec![
        "/nix/store/aaa-mesa".to_string(),
        "/nix/store/bbb-intel-media-driver-24.1".to_string(),
        "/nix/store/ccc-intel-media-driver-23".to_string(),
    ];
    assert_eq!(intel_driver_dir(&entries), Some("/nix/store/bbb-intel-media-driver-24.1/lib/dri".to_string()));
    assert_eq!(intel_driver_dir(&entries[..1]), None);
    assert_eq!(drivers_path(None), "/run/opengl-driver/lib/dri");
    assert_eq!(drivers_path(Some("/x/lib/dri")), "/run/opengl-driver/lib/dri:/x/lib/dri");
}

#[test]
fn frame_steps() {
    assert_eq!(after_frame(4, FrameOutcome::Written), (5, false));
    assert_eq!(after_frame(4, FrameOutcome::WriteFailed), (4, true));
    assert_eq!(after_frame(4, FrameOutcome::CaptureFailed), (4, false));
}

#[test]
fn render_node_choice_prefers_128() {
    assert_eq!(yasr::vaapi::render_node_choice(true, true), "/dev/dri/renderD128");
    assert_eq!(yasr::vaapi::render_node_choice(true, false), "/dev/dri/renderD128");
    assert_eq!(yasr::vaapi::render_node_choice(false, true), "/dev/dri/renderD129");
    assert_eq!(yasr::vaapi::render_node_choice(false, false), "/dev/dri/renderD128");
}

#[test]
fn device_path_names_an_existing_node_first() {
    let d = yasr::vaapi::device_path();
    let e128 = std::path::Path::new("/dev/dri/renderD128").exists();
    let e129 = std::path::Path::new("/dev/dri/renderD129").exists();
    let expected = if !e128 && e129 { "/dev/dri/renderD129" } else { "/dev/dri/renderD128" };
    assert_eq!(d, expected);
}

#[test]
fn log_badge_after_many_lines() {
    let mut log = LogBuffer::new();
    for i in 0..70 {
        log.record(if i == 5 { "an error".to_string() } else { format!("line {i}") });
    }
    assert_eq!(log.len(), 50);
    // The error was among the first twenty lines, which are no longer kept.
    assert_eq!(log.max_level(), Some(LogLevel::Info));
    assert_eq!(log_badge(log.max_level().unwrap(), log.len()), " [e] log (50)");
}

#[test]
fn frame_messages() {
    assert_eq!(yasr::frame_message(FrameOutcome::Written, "x"), None);
    assert_eq!(yasr::frame_message(FrameOutcome::WriteFailed, "broken pipe"), Some("ffmpeg write error: broken pipe".to_string()));
    assert_eq!(yasr::frame_message(FrameOutcome::CaptureFailed, "portal"), Some("capture error: portal".to_string()));
}
