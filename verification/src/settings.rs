//! Recording settings and the integer side of choosing a bit rate.

use vstd::prelude::*;

use crate::recorder::StopLimits;
use crate::text::text_eq;

verus! {

/// The recording settings the library acts on (volumes and the output folder are
/// kept by the application around it).
pub struct RecordingSettings {
    /// "screen" (monitor id) | "window" (hwnd as string) | "region"
    pub source_kind: String,
    /// monitor id (device name) or hwnd string
    pub source_id: String,
    /// region: x, y, w, h in virtual screen coords
    pub region: [i32; 4],
    pub fps: u32,
    /// 0 = captured size, else scaled width
    pub scale_width: u32,
    /// "h264" | "h265"
    pub codec: String,
    /// "low" | "medium" | "high" | "custom"
    pub quality: String,
    /// custom bitrate in kbps when quality == "custom"
    pub bitrate_kbps: u32,
    /// "vbr" | "cbr"
    pub rate_mode: String,
    pub record_system_audio: bool,
    pub record_microphone: bool,
    /// auto stop after N seconds, 0 = disabled
    pub max_duration_secs: u32,
    /// auto stop at N MB, 0 = disabled
    pub max_file_mb: u32,
    pub show_cursor: bool,
    pub click_highlight: bool,
    pub countdown_secs: u32,
    pub hotkey_start_stop: String,
    pub hotkey_pause: String,
}

impl Default for RecordingSettings {
    fn default() -> (s: Self)
        ensures
            s.source_kind@ == "screen"@,
            s.source_id@ == Seq::<char>::empty(),
            s.region@ == seq![0i32, 0, 1280, 720],
            s.fps == 30,
            s.scale_width == 0,
            s.codec@ == "h264"@,
            s.quality@ == "high"@,
            s.bitrate_kbps == 8000,
            s.rate_mode@ == "vbr"@,
            s.record_system_audio,
            !s.record_microphone,
            s.max_duration_secs == 0,
            s.max_file_mb == 0,
            s.show_cursor,
            s.click_highlight,
            s.countdown_secs == 3,
            s.hotkey_start_stop@ == "Alt+R"@,
            s.hotkey_pause@ == "Alt+P"@,
    {
        let region = [0i32, 0, 1280, 720];
        assert(region@ =~= seq![0i32, 0, 1280, 720]);
        RecordingSettings {
            source_kind: String::from_str("screen"),
            source_id: String::new(),
            region,
            fps: 30,
            scale_width: 0,
            codec: String::from_str("h264"),
            quality: String::from_str("high"),
            bitrate_kbps: 8000,
            rate_mode: String::from_str("vbr"),
            record_system_audio: true,
            record_microphone: false,
            max_duration_secs: 0,
            max_file_mb: 0,
            show_cursor: true,
            click_highlight: true,
            countdown_secs: 3,
            hotkey_start_stop: String::from_str("Alt+R"),
            hotkey_pause: String::from_str("Alt+P"),
        }
    }
}

/// The limits at which a recording with these settings stops by itself: a zero
/// setting means no limit.
pub fn stop_limits(s: &RecordingSettings) -> (l: StopLimits)
    ensures
        l.max_duration_us == (if s.max_duration_secs > 0 {
            Some((s.max_duration_secs * 1_000_000) as u128)
        } else {
            None
        }),
        l.max_file_mb == (if s.max_file_mb > 0 {
            Some(s.max_file_mb as u64)
        } else {
            None
        }),
{
    StopLimits {
        max_duration_us: if s.max_duration_secs > 0 {
            Some(s.max_duration_secs as u128 * 1_000_000)
        } else {
            None
        },
        max_file_mb: if s.max_file_mb > 0 {
            Some(s.max_file_mb as u64)
        } else {
            None
        },
    }
}

/// A quality preset.
#[derive(Clone, Copy, Debug, PartialEq, Eq, Structural)]
pub enum QualityPreset {
    Low,
    Medium,
    High,
    Custom,
}

/// "low", "medium", "high" and "custom" name their presets; anything else means high.
pub open spec fn preset_for(quality: Seq<char>) -> QualityPreset {
    if quality == "low"@ {
        QualityPreset::Low
    } else if quality == "medium"@ {
        QualityPreset::Medium
    } else if quality == "custom"@ {
        QualityPreset::Custom
    } else {
        QualityPreset::High
    }
}

pub fn quality_preset(quality: &str) -> (p: QualityPreset)
    ensures
        p == preset_for(quality@),
{
    proof {
        reveal_strlit("low");
        reveal_strlit("medium");
        reveal_strlit("high");
        reveal_strlit("custom");
        assert("low"@.len() == 3);
        assert("medium"@.len() == 6);
        assert("high"@.len() == 4);
        assert("custom"@.len() == 6);
        assert("medium"@ != "custom"@) by {
            assert("medium"@[0] != "custom"@[0]);
        }
    }
    if text_eq(quality, "low") {
        QualityPreset::Low
    } else if text_eq(quality, "medium") {
        QualityPreset::Medium
    } else if text_eq(quality, "high") {
        QualityPreset::High
    } else if text_eq(quality, "custom") {
        QualityPreset::Custom
    } else {
        QualityPreset::High
    }
}

/// Whether the codec setting asks for H.265, which needs less bit rate.
pub fn is_hevc(codec: &str) -> (b: bool)
    ensures
        b == (codec@ == "h265"@),
{
    text_eq(codec, "h265")
}

/// A custom bit rate is honoured down to 500 kbps.
pub fn custom_bitrate(kbps: u32) -> (r: u32)
    ensures
        r == (if kbps >= 500 { kbps } else { 500 }),
{
    if kbps >= 500 { kbps } else { 500 }
}

/// A computed bit rate is kept within 1000..=120000 kbps.
pub fn clamp_bitrate(kbps: u32) -> (r: u32)
    ensures
        r == (if kbps < 1000 {
            1000
        } else if kbps > 120_000 {
            120_000
        } else {
            kbps
        }),
{
    if kbps < 1000 {
        1000
    } else if kbps > 120_000 {
        120_000
    } else {
        kbps
    }
}

/// Pixels in a frame, counting an empty frame as one pixel.
pub fn frame_pixels(width: u32, height: u32) -> (p: u64)
    ensures
        p == (if width * height >= 1 { width * height } else { 1 }),
{
    assert(width as int * height as int <= u64::MAX) by (nonlinear_arith)
        requires
            width <= u32::MAX,
            height <= u32::MAX,
    ;
    let pixels = width as u64 * height as u64;
    if pixels >= 1 { pixels } else { 1 }
}


/// Pixels of a 1920x1080 frame, the size the presets are given for.
pub const PIXELS_1080P: u64 = 2_073_600;

/// The bit rate (kbps) a preset aims at for 1080p at 30 fps: about 6, 13 and 25 Mbps.
pub open spec fn preset_kbps(p: QualityPreset) -> int {
    match p {
        QualityPreset::Low => 6000,
        QualityPreset::Medium => 13000,
        QualityPreset::High => 25000,
        QualityPreset::Custom => 0,
    }
}

/// The frame rate the bit rate scales with: between 15 and 60 fps (half to twice 30 fps).
pub open spec fn rate_for_scaling(fps: u32) -> int {
    if fps < 15 {
        15
    } else if fps > 60 {
        60
    } else {
        fps as int
    }
}

/// A preset's bit rate before clamping: its 1080p30 rate in proportion to the
/// pixels and to the frame rate (limited to half and twice 30 fps), at 65% for
/// H.265; rounded down.
pub open spec fn preset_bitrate(pixels: int, p: QualityPreset, fps: u32, hevc: bool) -> int {
    (pixels * preset_kbps(p) * rate_for_scaling(fps) * (if hevc { 65int } else { 100int })) / (
    6_220_800_000int)
}

/// The bit rate chosen for a recording: a custom rate (at least 500 kbps), or the
/// preset's rate for the frame size, frame rate and codec within 1000..=120000 kbps.
pub open spec fn bitrate_kbps(width: u32, height: u32, fps: u32, quality: Seq<char>, codec: Seq<char>, custom: u32) -> int {
    let p = preset_for(quality);
    if p == QualityPreset::Custom {
        if custom >= 500 { custom as int } else { 500 }
    } else {
        let pixels = if width * height >= 1 { width * height } else { 1 };
        let raw = preset_bitrate(pixels, p, fps, codec == "h265"@);
        if raw < 1000 {
            1000
        } else if raw > 120_000 {
            120_000
        } else {
            raw
        }
    }
}

/// Map quality preset to bitrate (kbps) for a given resolution/fps/codec.
pub fn bitrate_for(width: u32, height: u32, fps: u32, quality: &str, codec: &str, custom: u32) -> (kbps: u32)
    ensures
        kbps == bitrate_kbps(width, height, fps, quality@, codec@, custom),
        quality@ == "custom"@ ==> kbps == (if custom >= 500 { custom } else { 500 }),
{
    proof {
        law_custom_rate_is_used_as_set(width, height, fps, codec@, custom);
    }
    let preset = quality_preset(quality);
    let target: u128 = match preset {
        QualityPreset::Low => 6000,
        QualityPreset::Medium => 13000,
        QualityPreset::High => 25000,
        QualityPreset::Custom => {
            return custom_bitrate(custom);
        },
    };
    let pixels = frame_pixels(width, height);
    let rate: u128 = if fps < 15 {
        15
    } else if fps > 60 {
        60
    } else {
        fps as u128
    };
    let share: u128 = if is_hevc(codec) { 65 } else { 100 };
    assert(pixels as int * target <= 0xffff_ffff_ffff_ffff * 25000) by (nonlinear_arith)
        requires
            pixels <= 0xffff_ffff_ffff_ffff,
            target <= 25000,
    ;
    assert(pixels as int * target * rate <= 0xffff_ffff_ffff_ffff * 25000 * 60) by (nonlinear_arith)
        requires
            pixels as int * target <= 0xffff_ffff_ffff_ffff * 25000,
            rate <= 60,
            0 <= pixels as int * target,
    ;
    assert(pixels as int * target * rate * share <= 0xffff_ffff_ffff_ffff * 25000 * 60 * 100) by (nonlinear_arith)
        requires
            pixels as int * target * rate <= 0xffff_ffff_ffff_ffff * 25000 * 60,
            share <= 100,
            0 <= pixels as int * target * rate,
    ;
    let raw: u128 = (pixels as u128 * target * rate * share) / 6_220_800_000;
    clamp_bitrate(if raw > 120_000 { 120_000 } else { raw as u32 })
}

/// A custom rate is used as set, raised to 500 kbps at least, whatever the frame
/// size, frame rate or codec.
pub proof fn law_custom_rate_is_used_as_set(width: u32, height: u32, fps: u32, codec: Seq<char>, custom: u32)
    ensures
        bitrate_kbps(width, height, fps, "custom"@, codec, custom) == (if custom >= 500 {
            custom as int
        } else {
            500
        }),
{
    reveal_strlit("low");
    reveal_strlit("medium");
    reveal_strlit("custom");
    assert("custom"@[0] != "low"@[0]);
    assert("custom"@[0] != "medium"@[0]);
}

/// Between 15 and 60 fps a preset's rate is in proportion to the frame rate and to
/// the pixels: 6000, 13000 or 25000 kbps for "low", "medium" and anything else but
/// "custom", taken per 1920x1080 pixels and per 30 fps, at 65% for "h265", rounded
/// down and then kept within 1000..=120000 kbps.
pub proof fn law_preset_rate_follows_fps(
    width: u32,
    height: u32,
    fps: u32,
    quality: Seq<char>,
    codec: Seq<char>,
    custom: u32,
)
    requires
        15 <= fps <= 60,
        quality != "custom"@,
    ensures
        ({
            let pixels: int = if width * height >= 1 { width * height } else { 1 };
            let base: int = if quality == "low"@ {
                6000
            } else if quality == "medium"@ {
                13000
            } else {
                25000
            };
            let share: int = if codec == "h265"@ { 65 } else { 100 };
            let raw: int = (pixels * base * fps * share) / 6_220_800_000;
            bitrate_kbps(width, height, fps, quality, codec, custom) == (if raw < 1000 {
                1000
            } else if raw > 120_000 {
                120_000
            } else {
                raw
            })
        }),
{
}

/// Frame rates outside 15..=60 fps are rated as the nearest end of that range: any
/// rate below 15 fps gets the bit rate of 15 fps, any rate above 60 that of 60 fps.
pub proof fn law_frame_rate_is_limited(
    width: u32,
    height: u32,
    fps: u32,
    quality: Seq<char>,
    codec: Seq<char>,
    custom: u32,
)
    ensures
        fps < 15 ==> bitrate_kbps(width, height, fps, quality, codec, custom) == bitrate_kbps(
            width,
            height,
            15,
            quality,
            codec,
            custom,
        ),
        fps > 60 ==> bitrate_kbps(width, height, fps, quality, codec, custom) == bitrate_kbps(
            width,
            height,
            60,
            quality,
            codec,
            custom,
        ),
{
}

/// A better preset never gets a lower bit rate.
pub proof fn law_presets_are_ordered(pixels: int, fps: u32, hevc: bool)
    requires
        pixels >= 1,
    ensures
        preset_bitrate(pixels, QualityPreset::Low, fps, hevc) <= preset_bitrate(pixels, QualityPreset::Medium, fps, hevc),
        preset_bitrate(pixels, QualityPreset::Medium, fps, hevc) <= preset_bitrate(pixels, QualityPreset::High, fps, hevc),
{
    let r = rate_for_scaling(fps);
    let c: int = if hevc { 65 } else { 100 };
    let d: int = 6_220_800_000;
    assert(pixels * 6000 * r * c <= pixels * 13000 * r * c) by (nonlinear_arith)
        requires
            pixels >= 1,
            r >= 15,
            c >= 65,
    ;
    assert(pixels * 13000 * r * c <= pixels * 25000 * r * c) by (nonlinear_arith)
        requires
            pixels >= 1,
            r >= 15,
            c >= 65,
    ;
    assert((pixels * 6000 * r * c) / d <= (pixels * 13000 * r * c) / d) by (nonlinear_arith)
        requires
            pixels * 6000 * r * c <= pixels * 13000 * r * c,
            d > 0,
    ;
    assert((pixels * 13000 * r * c) / d <= (pixels * 25000 * r * c) / d) by (nonlinear_arith)
        requires
            pixels * 13000 * r * c <= pixels * 25000 * r * c,
            d > 0,
    ;
}

/// H.265 gets 65% of the H.264 rate for the same preset, frame size and rate (before
/// the final clamp), and so never more.
pub proof fn law_hevc_uses_less(pixels: int, p: QualityPreset, fps: u32)
    requires
        pixels >= 1,
    ensures
        preset_bitrate(pixels, p, fps, true) == (pixels * preset_kbps(p) * rate_for_scaling(fps) * 65) / (
        6_220_800_000int),
        preset_bitrate(pixels, p, fps, true) <= preset_bitrate(pixels, p, fps, false),
{
    let k = preset_kbps(p);
    let r = rate_for_scaling(fps);
    let x = pixels * k * r;
    let d: int = 6_220_800_000;
    assert(k >= 0 && r >= 15);
    assert(x >= 0) by (nonlinear_arith)
        requires
            x == pixels * k * r,
            pixels >= 1,
            k >= 0,
            r >= 15,
    ;
    assert((x * 65) / d <= (x * 100) / d) by (nonlinear_arith)
        requires
            x >= 0,
            d > 0,
    ;
}

} // verus!
