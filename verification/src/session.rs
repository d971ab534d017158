//! Starting a recording: what the settings and the displays found on the machine
//! turn into, and why a start is refused.

use vstd::prelude::*;

use crate::capture::{output_size, scaled_size, MonitorInfo, SourceKind};
use crate::encoder::{AudioParams, EncoderConfig};
use crate::recorder::StopLimits;
use crate::settings::{stop_limits, RecordingSettings};
use crate::text::{parse_isize, parsed_isize, text_eq};

verus! {

/// Why a recording does not start.
#[derive(Clone, Debug)]
pub enum StartError {
    AlreadyRecording,
    /// The output folder could not be created; the system's message.
    Io(String),
    InvalidWindowHandle,
    MonitorNotFound,
}

impl StartError {
    /// The message shown to the user.
    pub fn message(&self) -> (m: String)
        ensures
            m@ == (match self {
                StartError::AlreadyRecording => "already recording"@,
                StartError::Io(e) => e@,
                StartError::InvalidWindowHandle => "invalid window handle"@,
                StartError::MonitorNotFound => "monitor not found"@,
            }),
    {
        match self {
            StartError::AlreadyRecording => String::from_str("already recording"),
            StartError::Io(e) => e.clone(),
            StartError::InvalidWindowHandle => String::from_str("invalid window handle"),
            StartError::MonitorNotFound => String::from_str("monitor not found"),
        }
    }
}

/// H.265 is tried out before recording with it, as no encoder may be installed.
pub fn needs_hevc_probe(codec: &str) -> (b: bool)
    ensures
        b == (codec@ == "h265"@),
{
    text_eq(codec, "h265")
}

/// The codec recorded with: H.264 in place of H.265 when the H.265 probe failed.
pub fn codec_after_probe(codec: &str, hevc_available: bool) -> (c: String)
    ensures
        c@ == (if codec@ == "h265"@ && !hevc_available {
            "h264"@
        } else {
            codec@
        }),
{
    if text_eq(codec, "h265") && !hevc_available {
        String::from_str("h264")
    } else {
        String::from_str(codec)
    }
}

/// The encoder set-up used to find out whether H.265 can be encoded.
pub fn hevc_probe_config() -> (cfg: EncoderConfig)
    ensures
        cfg.width == 320,
        cfg.height == 240,
        cfg.fps == 30,
        cfg.codec@ == "h265"@,
        cfg.bitrate_kbps == 2000,
        cfg.rate_mode@ == "vbr"@,
        cfg.audio is None,
{
    EncoderConfig {
        width: 320,
        height: 240,
        fps: 30,
        codec: String::from_str("h265"),
        bitrate_kbps: 2000,
        rate_mode: String::from_str("vbr"),
        audio: None,
    }
}

/// The name of the file a recording started at `stamp` is written to.
pub fn recording_file_name(stamp: &str) -> (name: String)
    ensures
        name@ == "recording_"@ + stamp@ + ".mp4"@,
{
    let mut name = String::from_str("recording_");
    name.append(stamp);
    name.append(".mp4");
    name
}

/// The index of the first display named `id` at or after `i`.
pub open spec fn monitor_index_from(monitors: Seq<MonitorInfo>, id: Seq<char>, i: int) -> Option<int>
    decreases monitors.len() - i,
{
    if i < 0 || i >= monitors.len() {
        None
    } else if monitors[i].id@ == id {
        Some(i)
    } else {
        monitor_index_from(monitors, id, i + 1)
    }
}

/// The index of the first display named `id`.
pub open spec fn monitor_index(monitors: Seq<MonitorInfo>, id: Seq<char>) -> Option<int> {
    monitor_index_from(monitors, id, 0)
}

proof fn lemma_monitor_index_bounds(monitors: Seq<MonitorInfo>, id: Seq<char>, i: int)
    ensures
        monitor_index_from(monitors, id, i) matches Some(k) ==> i <= k < monitors.len()
            && monitors[k].id@ == id,
    decreases monitors.len() - i,
{
    if 0 <= i < monitors.len() && monitors[i].id@ != id {
        lemma_monitor_index_bounds(monitors, id, i + 1);
    }
}

/// The first display named `id`, as `Iterator::find` picks it.
pub fn find_monitor(monitors: &Vec<MonitorInfo>, id: &str) -> (r: Option<usize>)
    ensures
        r matches Some(k) ==> monitor_index(monitors@, id@) == Some(k as int),
        r is None ==> monitor_index(monitors@, id@) is None,
        r matches Some(k) ==> k < monitors@.len() && monitors@[k as int].id@ == id@,
{
    let n = monitors.len();
    let mut i: usize = 0;
    while i < n
        invariant
            n == monitors@.len(),
            i <= n,
            monitor_index(monitors@, id@) == monitor_index_from(monitors@, id@, i as int),
        decreases n - i,
    {
        if text_eq(monitors[i].id.as_str(), id) {
            proof {
                lemma_monitor_index_bounds(monitors@, id@, i as int);
            }
            return Some(i);
        }
        i = i + 1;
    }
    None
}

/// The display recorded for a "screen" or "region" source: the one named in the
/// settings, else the first display found, else the empty name.
pub open spec fn monitor_choice(source_id: Seq<char>, monitors: Seq<MonitorInfo>) -> Seq<char> {
    if source_id.len() > 0 {
        source_id
    } else if monitors.len() > 0 {
        monitors[0].id@
    } else {
        Seq::empty()
    }
}

/// A region's width or height: at least 16 pixels.
pub open spec fn region_side(v: i32) -> u32 {
    if v >= 16 { v as u32 } else { 16 }
}

/// The region's origin, relative to the display it lies on, fits in an `i32`.
pub open spec fn region_offsets_fit(s_region: Seq<i32>, mon: MonitorInfo) -> bool {
    &&& i32::MIN <= s_region[0] - mon.x <= i32::MAX
    &&& i32::MIN <= s_region[1] - mon.y <= i32::MAX
}

/// A region recording's display is found by the source id in the settings.
pub open spec fn region_plan_fits(s: RecordingSettings, monitors: Seq<MonitorInfo>) -> bool {
    (s.source_kind@ == "region"@ && monitor_index(monitors, s.source_id@) is Some) ==> region_offsets_fit(
        s.region@,
        monitors[monitor_index(monitors, s.source_id@)->0],
    )
}

/// The captured frame size expected before the first frame: the first display's,
/// or 1920x1080.
pub open spec fn capture_estimate(monitors: Seq<MonitorInfo>) -> (u32, u32) {
    if monitors.len() > 0 {
        (#[verifier::truncate] (monitors[0].width as u32), #[verifier::truncate] (monitors[0].height as u32))
    } else {
        (1920, 1080)
    }
}

/// The width frames are scaled to: the setting when it is not 0.
pub open spec fn scale_for(scale_width: u32) -> Option<u32> {
    if scale_width > 0 { Some(scale_width) } else { None }
}

/// The frame size the bit rate is estimated for: the expected captured size, scaled
/// as the settings ask.
pub open spec fn estimate_for(monitors: Seq<MonitorInfo>, scale_width: u32) -> (u32, u32) {
    let (w, h) = capture_estimate(monitors);
    match scaled_size(w, h, scale_for(scale_width)) {
        Some(size) => size,
        None => (w, h),
    }
}

/// The frame size the bit rate is estimated for is the first display's size, or
/// 1920x1080 without displays, when no scaling is asked for; with a scale width it
/// is that width, the height following in proportion.
pub proof fn law_estimate_is_first_display(monitors: Seq<MonitorInfo>, scale_width: u32)
    ensures
        monitors.len() > 0 ==> estimate_for(monitors, 0) == (
            #[verifier::truncate] (monitors[0].width as u32),
            #[verifier::truncate] (monitors[0].height as u32),
        ),
        monitors.len() == 0 ==> estimate_for(monitors, 0) == (1920u32, 1080u32),
        scale_width > 0 && monitors.len() > 0 && #[verifier::truncate] (monitors[0].width as u32) != 0 ==> estimate_for(
            monitors,
            scale_width,
        ).0 == scale_width,
        scale_width > 0 && monitors.len() == 0 ==> estimate_for(monitors, scale_width) == (
            scale_width,
            (if 1080 * scale_width as int / 1920 < 1 { 1 } else { 1080 * scale_width as int / 1920 }) as u32,
        ),
{
}

/// Everything a recording is started with, other than where it is written and its
/// bit rate.
pub struct RecordingPlan {
    pub source: SourceKind,
    /// Region in the display's own coordinates: x, y, width, height.
    pub region: Option<(i32, i32, u32, u32)>,
    /// Frame size the bit rate is chosen for.
    pub frame_estimate: (u32, u32),
    /// Width the frames are scaled to (height in proportion); `None` keeps the captured size.
    pub scale_width: Option<u32>,
    /// Whether to record system audio and the microphone, when either is wanted.
    pub audio: Option<(bool, bool)>,
    pub limits: StopLimits,
}

/// The plan for recording with settings `s` on a machine with displays `monitors`.
/// A "window" source needs its id to be a window handle; a "region" needs its id to
/// name a display, relative to which the region is then taken.
pub fn plan_recording(s: &RecordingSettings, monitors: &Vec<MonitorInfo>) -> (r: Result<
    RecordingPlan,
    StartError,
>)
    requires
        region_plan_fits(*s, monitors@),
    ensures
        s.source_kind@ == "window"@ && parsed_isize(s.source_id@) is None ==> r matches Err(
            StartError::InvalidWindowHandle,
        ),
        s.source_kind@ == "region"@ && monitor_index(monitors@, s.source_id@) is None ==> r matches Err(
            StartError::MonitorNotFound,
        ),
        (s.source_kind@ == "window"@ ==> parsed_isize(s.source_id@) is Some) && (s.source_kind@
            == "region"@ ==> monitor_index(monitors@, s.source_id@) is Some) ==> r is Ok,
        r matches Ok(p) ==> {
            &&& s.source_kind@ == "window"@ ==> (p.source matches SourceKind::Window(h) && Some(h)
                == parsed_isize(s.source_id@))
            &&& s.source_kind@ != "window"@ ==> (p.source matches SourceKind::Monitor(id) && id@
                == monitor_choice(s.source_id@, monitors@))
            &&& s.source_kind@ == "region"@ ==> {
                let mon = monitors@[monitor_index(monitors@, s.source_id@)->0];
                p.region == Some(
                    (
                        (s.region@[0] - mon.x) as i32,
                        (s.region@[1] - mon.y) as i32,
                        region_side(s.region@[2]),
                        region_side(s.region@[3]),
                    ),
                )
            }
            &&& s.source_kind@ != "region"@ ==> p.region is None
            &&& p.frame_estimate == estimate_for(monitors@, s.scale_width)
            &&& monitors@.len() > 0 && s.scale_width == 0 ==> p.frame_estimate == (
                #[verifier::truncate] (monitors@[0].width as u32),
                #[verifier::truncate] (monitors@[0].height as u32),
            )
            &&& monitors@.len() == 0 && s.scale_width == 0 ==> p.frame_estimate == (1920u32, 1080u32)
            &&& p.scale_width == scale_for(s.scale_width)
            &&& p.audio == (if s.record_system_audio || s.record_microphone {
                Some((s.record_system_audio, s.record_microphone))
            } else {
                None
            })
            &&& p.limits.max_duration_us == (if s.max_duration_secs > 0 {
                Some((s.max_duration_secs * 1_000_000) as u128)
            } else {
                None
            })
            &&& p.limits.max_file_mb == (if s.max_file_mb > 0 {
                Some(s.max_file_mb as u64)
            } else {
                None
            })
        },
{
    proof {
        reveal_strlit("window");
        reveal_strlit("region");
        assert("window"@[0] != "region"@[0]);
    }
    let source = if text_eq(s.source_kind.as_str(), "window") {
        match parse_isize(s.source_id.as_str()) {
            Some(hwnd) => SourceKind::Window(hwnd),
            None => {
                return Err(StartError::InvalidWindowHandle);
            },
        }
    } else {
        let id = if s.source_id.unicode_len() == 0 {
            if monitors.len() > 0 {
                monitors[0].id.clone()
            } else {
                String::new()
            }
        } else {
            s.source_id.clone()
        };
        SourceKind::Monitor(id)
    };
    let region = if text_eq(s.source_kind.as_str(), "region") {
        match find_monitor(monitors, s.source_id.as_str()) {
            Some(k) => {
                let mon = &monitors[k];
                let x = s.region[0];
                let y = s.region[1];
                let w = s.region[2];
                let h = s.region[3];
                Some(
                    (
                        x - mon.x,
                        y - mon.y,
                        if w >= 16 { w as u32 } else { 16 },
                        if h >= 16 { h as u32 } else { 16 },
                    ),
                )
            },
            None => {
                return Err(StartError::MonitorNotFound);
            },
        }
    } else {
        None
    };
    let (cap_w, cap_h) = if monitors.len() > 0 {
        (#[verifier::truncate] (monitors[0].width as u32), #[verifier::truncate] (monitors[0].height as u32))
    } else {
        (1920u32, 1080u32)
    };
    let scale_width = if s.scale_width > 0 {
        Some(s.scale_width)
    } else {
        None
    };
    let frame_estimate = match output_size(cap_w, cap_h, scale_width) {
        Some(size) => size,
        None => (cap_w, cap_h),
    };
    let audio = if s.record_system_audio || s.record_microphone {
        Some((s.record_system_audio, s.record_microphone))
    } else {
        None
    };
    Ok(RecordingPlan { source, region, frame_estimate, scale_width, audio, limits: stop_limits(s) })
}

/// Where a window `win_w` x `win_h` goes to sit at the bottom right of a display at
/// (`mon_x`, `mon_y`) of `mon_w` x `mon_h`, clear of the edges by 48 and 72 pixels.
pub open spec fn bottom_right(mon_x: i32, mon_y: i32, mon_w: u32, mon_h: u32, win_w: u32, win_h: u32) -> (
    int,
    int,
) {
    (
        mon_x + (mon_w as i32) - (win_w as i32) - 48,
        mon_y + (mon_h as i32) - (win_h as i32) - 72,
    )
}

/// Every step of the position arithmetic stays within `i32`.
pub open spec fn bottom_right_fits(mon_x: i32, mon_y: i32, mon_w: u32, mon_h: u32, win_w: u32, win_h: u32) -> bool {
    &&& i32::MIN <= mon_x + (mon_w as i32) <= i32::MAX
    &&& i32::MIN <= mon_x + (mon_w as i32) - (win_w as i32) <= i32::MAX
    &&& i32::MIN <= mon_x + (mon_w as i32) - (win_w as i32) - 48 <= i32::MAX
    &&& i32::MIN <= mon_y + (mon_h as i32) <= i32::MAX
    &&& i32::MIN <= mon_y + (mon_h as i32) - (win_h as i32) <= i32::MAX
    &&& i32::MIN <= mon_y + (mon_h as i32) - (win_h as i32) - 72 <= i32::MAX
}

/// Position for the floating toolbar: the bottom right of its display's area.
pub fn bottom_right_position(mon_x: i32, mon_y: i32, mon_w: u32, mon_h: u32, win_w: u32, win_h: u32) -> (p: (
    i32,
    i32,
))
    requires
        bottom_right_fits(mon_x, mon_y, mon_w, mon_h, win_w, win_h),
    ensures
        p.0 == bottom_right(mon_x, mon_y, mon_w, mon_h, win_w, win_h).0,
        p.1 == bottom_right(mon_x, mon_y, mon_w, mon_h, win_w, win_h).1,
{
    let x = mon_x + mon_w as i32 - win_w as i32 - 48;
    let y = mon_y + mon_h as i32 - win_h as i32 - 72;
    (x, y)
}

/// The encoder set-up for a recording whose first frame is `width` x `height`.
pub fn encoder_config(
    width: u32,
    height: u32,
    fps: u32,
    codec: &str,
    bitrate_kbps: u32,
    rate_mode: &str,
    audio: Option<AudioParams>,
) -> (cfg: EncoderConfig)
    ensures
        cfg.width == width,
        cfg.height == height,
        cfg.fps == fps,
        cfg.codec@ == codec@,
        cfg.bitrate_kbps == bitrate_kbps,
        cfg.rate_mode@ == rate_mode@,
        cfg.audio == audio,
{
    EncoderConfig {
        width,
        height,
        fps,
        codec: String::from_str(codec),
        bitrate_kbps,
        rate_mode: String::from_str(rate_mode),
        audio,
    }
}

} // verus!
