use screen_recorder::capture::{MonitorInfo, SourceKind};
use screen_recorder::history::{
    is_mp4_file_name, mp4_entries, recent_recordings, sort_newest_first, RecordingEntry,
};
use screen_recorder::session::{
    bottom_right_position, codec_after_probe, encoder_config, find_monitor, hevc_probe_config,
    needs_hevc_probe, plan_recording, recording_file_name, StartError,
};
use screen_recorder::settings::RecordingSettings;

fn monitor(id: &str, x: i32, y: i32, w: i32, h: i32) -> MonitorInfo {
    MonitorInfo::from_device(id, x, y, x + w, y + h, 0)
}

fn two_monitors() -> Vec<MonitorInfo> {
    vec![monitor("\\\\.\\DISPLAY1", 0, 0, 2560, 1440), monitor("\\\\.\\DISPLAY2", 2560, 100, 1920, 1080)]
}

#[test]
fn hevc_probe_and_fallback() {
    assert!(needs_hevc_probe("h265"));
    assert!(!needs_hevc_probe("h264"));
    assert_eq!(codec_after_probe("h265", false), "h264");
    assert_eq!(codec_after_probe("h265", true), "h265");
    assert_eq!(codec_after_probe("h264", false), "h264");
    let cfg = hevc_probe_config();
    assert_eq!((cfg.width, cfg.height, cfg.fps, cfg.bitrate_kbps), (320, 240, 30, 2000));
    assert_eq!(cfg.codec, "h265");
    assert_eq!(cfg.rate_mode, "vbr");
    assert!(cfg.audio.is_none());
}

#[test]
fn output_file_name() {
    assert_eq!(recording_file_name("20240102_030405"), "recording_20240102_030405.mp4");
}

#[test]
fn start_error_messages() {
    assert_eq!(StartError::AlreadyRecording.message(), "already recording");
    assert_eq!(StartError::InvalidWindowHandle.message(), "invalid window handle");
    assert_eq!(StartError::MonitorNotFound.message(), "monitor not found");
    assert_eq!(StartError::Io("denied".to_string()).message(), "denied");
}

#[test]
fn find_first_monitor_by_id() {
    let mut ms = two_monitors();
    ms.push(monitor("\\\\.\\DISPLAY1", 9, 9, 9, 9));
    assert_eq!(find_monitor(&ms, "\\\\.\\DISPLAY1"), Some(0));
    assert_eq!(find_monitor(&ms, "\\\\.\\DISPLAY2"), Some(1));
    assert_eq!(find_monitor(&ms, "\\\\.\\DISPLAY9"), None);
}

#[test]
fn plan_screen_defaults_to_first_monitor() {
    let s = RecordingSettings::default();
    let p = plan_recording(&s, &two_monitors()).ok().unwrap();
    match p.source {
        SourceKind::Monitor(id) => assert_eq!(id, "\\\\.\\DISPLAY1"),
        SourceKind::Window(_) => panic!("expected a monitor"),
    }
    assert!(p.region.is_none());
    assert_eq!(p.frame_estimate, (2560, 1440));
    assert_eq!(p.scale_width, None);
    assert_eq!(p.audio, Some((true, false)));
    assert_eq!((p.limits.max_duration_us, p.limits.max_file_mb), (None, None));
    // no displays at all: empty id, 1920x1080 estimate
    let p = plan_recording(&s, &Vec::new()).ok().unwrap();
    match p.source {
        SourceKind::Monitor(id) => assert_eq!(id, ""),
        SourceKind::Window(_) => panic!("expected a monitor"),
    }
    assert_eq!(p.frame_estimate, (1920, 1080));
}

#[test]
fn plan_window_source() {
    let mut s = RecordingSettings::default();
    s.source_kind = "window".to_string();
    s.source_id = "132456".to_string();
    s.record_system_audio = false;
    s.max_duration_secs = 6;
    let p = plan_recording(&s, &two_monitors()).ok().unwrap();
    match p.source {
        SourceKind::Window(h) => assert_eq!(h, 132456),
        SourceKind::Monitor(_) => panic!("expected a window"),
    }
    assert_eq!(p.audio, None);
    assert_eq!(p.limits.max_duration_us, Some(6_000_000));
    s.source_id = "not-a-handle".to_string();
    assert!(matches!(plan_recording(&s, &two_monitors()), Err(StartError::InvalidWindowHandle)));
}

#[test]
fn plan_region_relative_to_monitor() {
    let mut s = RecordingSettings::default();
    s.source_kind = "region".to_string();
    s.source_id = "\\\\.\\DISPLAY2".to_string();
    s.region = [2600, 150, 8, 400];
    s.record_microphone = true;
    let p = plan_recording(&s, &two_monitors()).ok().unwrap();
    match p.source {
        SourceKind::Monitor(id) => assert_eq!(id, "\\\\.\\DISPLAY2"),
        SourceKind::Window(_) => panic!("expected a monitor"),
    }
    // origin relative to the display; sides at least 16
    assert_eq!(p.region, Some((40, 50, 16, 400)));
    assert_eq!(p.audio, Some((true, true)));
    s.source_id = "\\\\.\\DISPLAY7".to_string();
    assert!(matches!(plan_recording(&s, &two_monitors()), Err(StartError::MonitorNotFound)));
}

#[test]
fn toolbar_position() {
    assert_eq!(bottom_right_position(0, 0, 1920, 1080, 260, 56), (1612, 952));
    assert_eq!(bottom_right_position(-1920, 0, 1920, 1080, 260, 56), (-308, 952));
}

#[test]
fn encoder_config_from_first_frame() {
    let cfg = encoder_config(1366, 768, 60, "h264", 12_000, "cbr", None);
    assert_eq!((cfg.width, cfg.height, cfg.fps, cfg.bitrate_kbps), (1366, 768, 60, 12_000));
    assert_eq!(cfg.codec, "h264");
    assert_eq!(cfg.rate_mode, "cbr");
    assert!(cfg.audio.is_none());
}

fn entry(name: &str, modified: &str) -> RecordingEntry {
    RecordingEntry {
        path: format!("C:\\Videos\\ScreenRecord\\{name}"),
        file_name: name.to_string(),
        size_bytes: name.len() as u64,
        modified: modified.to_string(),
    }
}

#[test]
fn mp4_extension_rule() {
    assert!(is_mp4_file_name("recording_1.mp4"));
    assert!(is_mp4_file_name("a.mp4"));
    assert!(is_mp4_file_name("..mp4"));
    assert!(!is_mp4_file_name(".mp4"));
    assert!(!is_mp4_file_name("clip.MP4"));
    assert!(!is_mp4_file_name("clip.mp4.part"));
    assert!(!is_mp4_file_name("mp4"));
    // the same answer as std::path
    for n in ["x.mp4", ".mp4", "..mp4", "a.b.mp4", "mp4", "a.mp", "a.mp4 "] {
        let by_path = std::path::Path::new(n).extension().map(|x| x == "mp4").unwrap_or(false);
        assert_eq!(is_mp4_file_name(n), by_path, "{n}");
    }
}

#[test]
fn history_sorted_newest_first_stably() {
    let entries = vec![
        entry("a.mp4", "2024-01-01 10:00"),
        entry("b.mp4", "2024-03-01 10:00"),
        entry("c.mp4", ""),
        entry("d.mp4", "2024-03-01 10:00"),
        entry("e.mp4", "2024-02-01 10:00"),
    ];
    let out = sort_newest_first(entries);
    let names: Vec<&str> = out.iter().map(|e| e.file_name.as_str()).collect();
    assert_eq!(names, vec!["b.mp4", "d.mp4", "e.mp4", "a.mp4", "c.mp4"]);
}

#[test]
fn history_keeps_mp4_only() {
    let entries = vec![entry("a.mp4", "1"), entry("notes.txt", "9"), entry("b.mp4", "2")];
    let out = mp4_entries(entries);
    let names: Vec<&str> = out.iter().map(|e| e.file_name.as_str()).collect();
    assert_eq!(names, vec!["a.mp4", "b.mp4"]);
}

#[test]
fn history_shows_thirty_newest() {
    let mut entries = Vec::new();
    for i in 0..40 {
        entries.push(entry(&format!("r{i:02}.mp4"), &format!("2024-01-01 10:{i:02}")));
        entries.push(entry(&format!("r{i:02}.txt"), "2099-01-01 00:00"));
    }
    let out = recent_recordings(entries);
    assert_eq!(out.len(), 30);
    assert_eq!(out[0].file_name, "r39.mp4");
    assert_eq!(out[29].file_name, "r10.mp4");
    assert_eq!(out[0].path, "C:\\Videos\\ScreenRecord\\r39.mp4");
    let few = recent_recordings(vec![entry("x.mp4", "b"), entry("y.mp4", "a")]);
    assert_eq!(few.len(), 2);
    assert_eq!(few[0].file_name, "x.mp4");
}

#[test]
fn plan_scaled_output() {
    let mut s = RecordingSettings::default();
    s.scale_width = 1280;
    let p = plan_recording(&s, &two_monitors()).ok().unwrap();
    assert_eq!(p.scale_width, Some(1280));
    // the bit rate is estimated for the scaled size
    assert_eq!(p.frame_estimate, (1280, 720));
    let p = plan_recording(&s, &Vec::new()).ok().unwrap();
    assert_eq!(p.frame_estimate, (1280, 720));
}
