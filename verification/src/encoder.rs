//! What the MP4 encoder is set up with and fed: stream types, packed size and rate
//! attributes, sample sizes and sample times.

use vstd::prelude::*;

use crate::text::text_eq;

verus! {

#[derive(Clone, Copy, Debug, PartialEq, Eq, Structural)]
pub struct AudioParams {
    pub sample_rate: u32,
    pub channels: u16,
}

/// What a recording is encoded with.
pub struct EncoderConfig {
    pub width: u32,
    pub height: u32,
    pub fps: u32,
    /// "h264" | "h265"
    pub codec: String,
    pub bitrate_kbps: u32,
    /// "vbr" | "cbr"
    pub rate_mode: String,
    pub audio: Option<AudioParams>,
}

/// Two 32-bit halves packed into one 64-bit attribute value: `hi` in the upper
/// half, `lo` in the lower, each taken modulo 2^32.
pub open spec fn packed(hi: u64, lo: u64) -> int {
    (hi % 0x1_0000_0000) * 0x1_0000_0000 + lo % 0x1_0000_0000
}

/// Pack (num, den) into the UINT64 layout used for size and ratio attributes.
pub fn pack_u64(hi: u64, lo: u64) -> (v: u64)
    ensures
        v == packed(hi, lo),
{
    let v = (hi << 32) | (lo & 0xffff_ffff);
    assert(v == ((hi % 0x1_0000_0000) * 0x1_0000_0000 + lo % 0x1_0000_0000) as u64) by (bit_vector)
        requires
            v == (hi << 32) | (lo & 0xffff_ffff),
    ;
    v
}

/// Unpacking gives back both halves when each fits in 32 bits.
pub proof fn law_pack_roundtrip(hi: u64, lo: u64)
    requires
        hi < 0x1_0000_0000,
        lo < 0x1_0000_0000,
    ensures
        packed(hi, lo) / 0x1_0000_0000 == hi,
        packed(hi, lo) % 0x1_0000_0000 == lo,
{
}

/// The video compression format.
#[derive(Clone, Copy, Debug, PartialEq, Eq, Structural)]
pub enum VideoCodec {
    H264,
    Hevc,
}

/// "h265" selects HEVC; any other name selects H.264.
pub open spec fn codec_for(name: Seq<char>) -> VideoCodec {
    if name == "h265"@ { VideoCodec::Hevc } else { VideoCodec::H264 }
}

pub fn video_codec(name: &str) -> (c: VideoCodec)
    ensures
        c == codec_for(name@),
{
    if text_eq(name, "h265") {
        VideoCodec::Hevc
    } else {
        VideoCodec::H264
    }
}

/// How the encoder spends its bit rate.
#[derive(Clone, Copy, Debug, PartialEq, Eq, Structural)]
pub enum RateControl {
    /// Variable bit rate around the average.
    Vbr,
    /// Constant bit rate.
    Cbr,
}

/// "cbr" selects constant bit rate; "vbr", and any other name, variable bit rate.
pub open spec fn rate_control_for(name: Seq<char>) -> RateControl {
    if name == "cbr"@ { RateControl::Cbr } else { RateControl::Vbr }
}

pub fn rate_control(name: &str) -> (r: RateControl)
    ensures
        r == rate_control_for(name@),
{
    if text_eq(name, "cbr") {
        RateControl::Cbr
    } else {
        RateControl::Vbr
    }
}

/// Interlace mode attribute value for progressive frames.
pub const PROGRESSIVE: u32 = 2;

/// The attributes of the compressed video stream (and, for size, rate, interlacing
/// and pixel aspect, of the BGRA input).
#[derive(Clone, Copy, Debug, PartialEq, Eq, Structural)]
pub struct VideoStreamPlan {
    pub codec: VideoCodec,
    pub rate_control: RateControl,
    pub avg_bitrate: u32,
    pub frame_size: u64,
    pub frame_rate: u64,
    pub interlace_mode: u32,
    pub pixel_aspect_ratio: u64,
}

/// The attributes of the AAC stream and of its 16-bit PCM input.
#[derive(Clone, Copy, Debug, PartialEq, Eq, Structural)]
pub struct AudioStreamPlan {
    pub bits_per_sample: u32,
    pub sample_rate: u32,
    pub channels: u32,
    pub avg_bytes_per_second: u32,
}

/// Everything the encoder is set up with.
#[derive(Clone, Copy, Debug, PartialEq, Eq, Structural)]
pub struct EncoderPlan {
    pub video: VideoStreamPlan,
    pub audio: Option<AudioStreamPlan>,
    /// Length of one video frame in 100 ns units.
    pub frame_duration: i64,
}

/// AAC byte rate: 16000 B/s for stereo, 8000 B/s otherwise.
pub open spec fn aac_bytes_per_second(channels: u16) -> u32 {
    if channels == 2 { 16000 } else { 8000 }
}

/// The configuration can be encoded: the bit rate fits in 32 bits and the frame rate is positive.
pub open spec fn config_encodable(bitrate_kbps: u32, fps: u32) -> bool {
    bitrate_kbps * 1000 <= u32::MAX && fps > 0
}

impl EncoderPlan {
    pub fn for_config(cfg: &EncoderConfig) -> (p: EncoderPlan)
        requires
            config_encodable(cfg.bitrate_kbps, cfg.fps),
        ensures
            p.video.codec == codec_for(cfg.codec@),
            p.video.rate_control == rate_control_for(cfg.rate_mode@),
            p.video.avg_bitrate == cfg.bitrate_kbps * 1000,
            p.video.frame_size == packed(cfg.width as u64, cfg.height as u64),
            p.video.frame_rate == packed(cfg.fps as u64, 1),
            p.video.interlace_mode == PROGRESSIVE,
            p.video.pixel_aspect_ratio == packed(1, 1),
            p.frame_duration == 10_000_000int / (cfg.fps as int),
            match cfg.audio {
                Some(ap) => p.audio == Some(
                    AudioStreamPlan {
                        bits_per_sample: 16,
                        sample_rate: ap.sample_rate,
                        channels: ap.channels as u32,
                        avg_bytes_per_second: aac_bytes_per_second(ap.channels),
                    },
                ),
                None => p.audio is None,
            },
    {
        let video = VideoStreamPlan {
            codec: video_codec(cfg.codec.as_str()),
            rate_control: rate_control(cfg.rate_mode.as_str()),
            avg_bitrate: cfg.bitrate_kbps * 1000,
            frame_size: pack_u64(cfg.width as u64, cfg.height as u64),
            frame_rate: pack_u64(cfg.fps as u64, 1),
            interlace_mode: PROGRESSIVE,
            pixel_aspect_ratio: pack_u64(1, 1),
        };
        let audio = match &cfg.audio {
            Some(ap) => Some(
                AudioStreamPlan {
                    bits_per_sample: 16,
                    sample_rate: ap.sample_rate,
                    channels: ap.channels as u32,
                    avg_bytes_per_second: if ap.channels == 2 { 16000 } else { 8000 },
                },
            ),
            None => None,
        };
        EncoderPlan { video, audio, frame_duration: 10_000_000i64 / cfg.fps as i64 }
    }
}

/// Why a sample is not handed to the encoder.
#[derive(Clone, Copy, Debug, PartialEq, Eq, Structural)]
pub enum EncodeError {
    FrameBufferTooSmall,
    /// The time, in 100 ns units, does not fit in an `i64`.
    TimestampOutOfRange,
}

impl EncodeError {
    pub fn message(&self) -> (m: String)
        ensures
            m@ == (match self {
                EncodeError::FrameBufferTooSmall => "frame buffer too small"@,
                EncodeError::TimestampOutOfRange => "timestamp out of range"@,
            }),
    {
        match self {
            EncodeError::FrameBufferTooSmall => String::from_str("frame buffer too small"),
            EncodeError::TimestampOutOfRange => String::from_str("timestamp out of range"),
        }
    }
}

/// How one video frame goes into a media sample.
#[derive(Clone, Copy, Debug, PartialEq, Eq, Structural)]
pub struct VideoSample {
    /// Bytes of BGRA pixels copied into the sample's buffer.
    pub buffer_len: u32,
    /// Presentation time in 100 ns units.
    pub sample_time: i64,
}

/// A `width` x `height` BGRA frame's byte size fits in 32 bits.
pub open spec fn frame_size_fits(width: u32, height: u32) -> bool {
    width * height * 4 <= u32::MAX
}

/// A time of `ts_us` microseconds can be given in 100 ns units as an `i64`.
pub open spec fn sample_time_fits(ts_us: u64) -> bool {
    ts_us * 10 <= i64::MAX
}

/// The sample for a BGRA frame of `data_len` bytes at `ts_us` microseconds: the frame
/// must hold `width * height * 4` bytes, of which exactly that many are used, and is
/// presented at `ts_us` (in 100 ns units, `ts_us * 10`).
pub fn video_sample(data_len: usize, width: u32, height: u32, ts_us: u64) -> (r: Result<VideoSample, EncodeError>)
    requires
        frame_size_fits(width, height),
    ensures
        data_len < width * height * 4 ==> r == Err::<VideoSample, EncodeError>(EncodeError::FrameBufferTooSmall),
        data_len >= width * height * 4 && !sample_time_fits(ts_us) ==> r == Err::<VideoSample, EncodeError>(
            EncodeError::TimestampOutOfRange,
        ),
        data_len >= width * height * 4 && sample_time_fits(ts_us) ==> r == Ok::<VideoSample, EncodeError>(
            VideoSample { buffer_len: (width * height * 4) as u32, sample_time: (ts_us * 10) as i64 },
        ),
{
    let buf_size = (width * height * 4) as usize;
    if data_len < buf_size {
        return Err(EncodeError::FrameBufferTooSmall);
    }
    match sample_time(ts_us) {
        Some(t) => Ok(VideoSample { buffer_len: buf_size as u32, sample_time: t }),
        None => Err(EncodeError::TimestampOutOfRange),
    }
}

/// Stream index meaning "no audio stream was added".
pub const NO_AUDIO_STREAM: u32 = 0xffff_ffff;

/// Audio is written only when an audio stream was added.
pub fn has_audio_stream(stream: u32) -> (b: bool)
    ensures
        b == (stream != NO_AUDIO_STREAM),
{
    stream != NO_AUDIO_STREAM
}

/// Presentation time, in 100 ns units, of a sample stamped `ts_us` microseconds;
/// `None` when it does not fit in an `i64`.
pub fn sample_time(ts_us: u64) -> (t: Option<i64>)
    ensures
        sample_time_fits(ts_us) ==> t == Some((ts_us * 10) as i64),
        !sample_time_fits(ts_us) ==> t is None,
{
    if ts_us <= (i64::MAX / 10) as u64 {
        Some((ts_us * 10) as i64)
    } else {
        None
    }
}

} // verus!
