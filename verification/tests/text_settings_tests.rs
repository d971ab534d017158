use screen_recorder::settings::{
    bitrate_for, clamp_bitrate, custom_bitrate, frame_pixels, is_hevc, quality_preset, stop_limits,
    QualityPreset, RecordingSettings,
};
use screen_recorder::text::{parse_isize, text_eq, text_lt, trim_trailing_nuls};

#[test]
fn text_equality_and_order() {
    assert!(text_eq("window", "window"));
    assert!(!text_eq("window", "windows"));
    assert!(!text_eq("a", "b"));
    assert!(text_lt("2024-01-02 10:00", "2024-01-10 09:00"));
    assert!(!text_lt("2024-01-10 09:00", "2024-01-02 10:00"));
    assert!(text_lt("", "2024"));
    assert!(!text_lt("same", "same"));
    assert!(text_lt("ab", "abc"));
    assert!(text_lt("Z", "a"));
    assert!(text_lt("é", "😀"));
}

#[test]
fn parse_window_handles() {
    assert_eq!(parse_isize("123456"), Some(123456));
    assert_eq!(parse_isize("-42"), Some(-42));
    assert_eq!(parse_isize("+7"), Some(7));
    assert_eq!(parse_isize("007"), Some(7));
    assert_eq!(parse_isize(""), None);
    assert_eq!(parse_isize("-"), None);
    assert_eq!(parse_isize("+"), None);
    assert_eq!(parse_isize(" 1"), None);
    assert_eq!(parse_isize("12a"), None);
    assert_eq!(parse_isize("0x10"), None);
    assert_eq!(parse_isize(&isize::MAX.to_string()), Some(isize::MAX));
    assert_eq!(parse_isize(&isize::MIN.to_string()), Some(isize::MIN));
    let too_big = format!("{}0", isize::MAX);
    assert_eq!(parse_isize(&too_big), None);
    assert_eq!(parse_isize("99999999999999999999999999999999999999999999"), None);
    assert_eq!(parse_isize("9999999999999999999999999999999999999999x"), None);
    // the same answers as the standard library
    for s in ["1", "-0", "+-1", "--1", "18446744073709551616", "-9223372036854775809", "٣"] {
        assert_eq!(parse_isize(s), s.parse::<isize>().ok(), "{s}");
    }
}

#[test]
fn trims_trailing_nuls_only() {
    assert_eq!(trim_trailing_nuls("DISPLAY1\0\0"), "DISPLAY1");
    assert_eq!(trim_trailing_nuls("\0A\0"), "\0A");
    assert_eq!(trim_trailing_nuls("\0\0"), "");
    assert_eq!(trim_trailing_nuls("plain"), "plain");
}

#[test]
fn default_settings() {
    let s = RecordingSettings::default();
    assert_eq!(s.source_kind, "screen");
    assert_eq!(s.source_id, "");
    assert_eq!(s.region, [0, 0, 1280, 720]);
    assert_eq!(s.fps, 30);
    assert_eq!(s.scale_width, 0);
    assert_eq!(s.codec, "h264");
    assert_eq!(s.quality, "high");
    assert_eq!(s.bitrate_kbps, 8000);
    assert_eq!(s.rate_mode, "vbr");
    assert!(s.record_system_audio);
    assert!(!s.record_microphone);
    assert_eq!((s.max_duration_secs, s.max_file_mb), (0, 0));
    assert!(s.show_cursor && s.click_highlight);
    assert_eq!(s.countdown_secs, 3);
    assert_eq!(s.hotkey_start_stop, "Alt+R");
    assert_eq!(s.hotkey_pause, "Alt+P");
}

#[test]
fn limits_from_settings() {
    let mut s = RecordingSettings::default();
    let l = stop_limits(&s);
    assert_eq!((l.max_duration_us, l.max_file_mb), (None, None));
    s.max_duration_secs = 90;
    s.max_file_mb = 500;
    let l = stop_limits(&s);
    assert_eq!((l.max_duration_us, l.max_file_mb), (Some(90_000_000), Some(500)));
}

#[test]
fn quality_presets() {
    assert_eq!(quality_preset("low"), QualityPreset::Low);
    assert_eq!(quality_preset("medium"), QualityPreset::Medium);
    assert_eq!(quality_preset("high"), QualityPreset::High);
    assert_eq!(quality_preset("custom"), QualityPreset::Custom);
    assert_eq!(quality_preset("ultra"), QualityPreset::High);
    assert_eq!(quality_preset(""), QualityPreset::High);
}

#[test]
fn bitrate_pieces() {
    assert!(is_hevc("h265"));
    assert!(!is_hevc("h264"));
    assert_eq!(custom_bitrate(100), 500);
    assert_eq!(custom_bitrate(500), 500);
    assert_eq!(custom_bitrate(9000), 9000);
    assert_eq!(clamp_bitrate(0), 1000);
    assert_eq!(clamp_bitrate(1000), 1000);
    assert_eq!(clamp_bitrate(45_000), 45_000);
    assert_eq!(clamp_bitrate(120_000), 120_000);
    assert_eq!(clamp_bitrate(u32::MAX), 120_000);
    assert_eq!(frame_pixels(1920, 1080), 2_073_600);
    assert_eq!(frame_pixels(0, 1080), 1);
    assert_eq!(frame_pixels(u32::MAX, u32::MAX), (u32::MAX as u64) * (u32::MAX as u64));
}

#[test]
fn bitrate_presets_at_1080p30() {
    assert_eq!(bitrate_for(1920, 1080, 30, "low", "h264", 0), 6000);
    assert_eq!(bitrate_for(1920, 1080, 30, "medium", "h264", 0), 13000);
    assert_eq!(bitrate_for(1920, 1080, 30, "high", "h264", 0), 25000);
    // H.265 at 65%
    assert_eq!(bitrate_for(1920, 1080, 30, "low", "h265", 0), 3900);
    assert_eq!(bitrate_for(1920, 1080, 30, "medium", "h265", 0), 8450);
    assert_eq!(bitrate_for(1920, 1080, 30, "high", "h265", 0), 16250);
    // unknown quality means high
    assert_eq!(bitrate_for(1920, 1080, 30, "ultra", "h264", 0), 25000);
}

#[test]
fn bitrate_scales_with_size_and_rate() {
    // 60 fps doubles, 15 fps halves; beyond that the rate is held
    assert_eq!(bitrate_for(1920, 1080, 60, "low", "h264", 0), 12000);
    assert_eq!(bitrate_for(1920, 1080, 120, "low", "h264", 0), 12000);
    assert_eq!(bitrate_for(1920, 1080, 15, "medium", "h264", 0), 6500);
    assert_eq!(bitrate_for(1920, 1080, 1, "medium", "h264", 0), 6500);
    // 4K is four times the pixels
    assert_eq!(bitrate_for(3840, 2160, 30, "low", "h264", 0), 24000);
    // 720p: 921600 px * 25000 / 2073600 = 11111.1
    assert_eq!(bitrate_for(1280, 720, 30, "high", "h264", 0), 11111);
    // clamped to 1000..=120000
    assert_eq!(bitrate_for(320, 240, 30, "low", "h264", 0), 1000);
    assert_eq!(bitrate_for(0, 0, 30, "high", "h264", 0), 1000);
    assert_eq!(bitrate_for(7680, 4320, 60, "high", "h264", 0), 120_000);
    assert_eq!(bitrate_for(u32::MAX, u32::MAX, u32::MAX, "high", "h265", 0), 120_000);
}

#[test]
fn bitrate_custom() {
    assert_eq!(bitrate_for(1920, 1080, 30, "custom", "h264", 8000), 8000);
    assert_eq!(bitrate_for(1920, 1080, 30, "custom", "h265", 100), 500);
}
