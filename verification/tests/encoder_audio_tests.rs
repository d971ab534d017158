use screen_recorder::audio::{
    capture_streams, mixed_params, sample_le_bytes, AudioError, AudioParams as MixParams,
    PcmChunker, CHUNK_SAMPLES, OUT_RATE,
};
use screen_recorder::encoder::{
    has_audio_stream, pack_u64, rate_control, sample_time, video_codec, video_sample, AudioParams,
    EncodeError, EncoderConfig, EncoderPlan, RateControl, VideoCodec, NO_AUDIO_STREAM, PROGRESSIVE,
};

#[test]
fn pack_attribute_halves() {
    assert_eq!(pack_u64(1920, 1080), 0x0000_0780_0000_0438);
    assert_eq!(pack_u64(30, 1), (30u64 << 32) | 1);
    // each half is taken modulo 2^32
    assert_eq!(pack_u64(0x1_0000_0001, 0x2_0000_0003), 0x0000_0001_0000_0003);
}

#[test]
fn codec_names() {
    assert_eq!(video_codec("h265"), VideoCodec::Hevc);
    assert_eq!(video_codec("h264"), VideoCodec::H264);
    assert_eq!(video_codec("anything"), VideoCodec::H264);
}

#[test]
fn encoder_plan_for_config() {
    let cfg = EncoderConfig {
        width: 1920,
        height: 1080,
        fps: 30,
        codec: "h265".to_string(),
        bitrate_kbps: 8000,
        rate_mode: "vbr".to_string(),
        audio: Some(AudioParams { sample_rate: 48_000, channels: 1 }),
    };
    let p = EncoderPlan::for_config(&cfg);
    assert_eq!(p.video.codec, VideoCodec::Hevc);
    assert_eq!(p.video.rate_control, RateControl::Vbr);
    assert_eq!(p.video.avg_bitrate, 8_000_000);
    assert_eq!(p.video.frame_size, pack_u64(1920, 1080));
    assert_eq!(p.video.frame_rate, pack_u64(30, 1));
    assert_eq!(p.video.interlace_mode, PROGRESSIVE);
    assert_eq!(p.video.pixel_aspect_ratio, pack_u64(1, 1));
    assert_eq!(p.frame_duration, 333_333);
    let a = p.audio.unwrap();
    assert_eq!((a.bits_per_sample, a.sample_rate, a.channels, a.avg_bytes_per_second), (16, 48_000, 1, 8000));

    let stereo = EncoderConfig {
        audio: Some(AudioParams { sample_rate: 44_100, channels: 2 }),
        codec: "h264".to_string(),
        rate_mode: "cbr".to_string(),
        ..cfg
    };
    let p = EncoderPlan::for_config(&stereo);
    assert_eq!(p.video.codec, VideoCodec::H264);
    assert_eq!(p.video.rate_control, RateControl::Cbr);
    assert_eq!(p.audio.unwrap().avg_bytes_per_second, 16000);
}

#[test]
fn video_sample_sizes() {
    assert_eq!(video_sample(15, 2, 2, 0), Err(EncodeError::FrameBufferTooSmall));
    let s = video_sample(20, 2, 2, 123_456).unwrap();
    // presented at 123456 µs: 1234560 units of 100 ns
    assert_eq!((s.buffer_len, s.sample_time), (16, 1_234_560));
    let s = video_sample(4, 1, 1, 1000).unwrap();
    assert_eq!(s.sample_time, 10_000);
    assert_eq!(video_sample(4, 1, 1, u64::MAX), Err(EncodeError::TimestampOutOfRange));
    assert_eq!(video_sample(4, 1, 1, (i64::MAX / 10) as u64).unwrap().sample_time, i64::MAX / 10 * 10);
    assert_eq!(video_sample(4, 1, 1, (i64::MAX / 10) as u64 + 1), Err(EncodeError::TimestampOutOfRange));
    assert_eq!(EncodeError::FrameBufferTooSmall.message(), "frame buffer too small");
    assert_eq!(EncodeError::TimestampOutOfRange.message(), "timestamp out of range");
}

#[test]
fn audio_stream_and_times() {
    assert!(!has_audio_stream(NO_AUDIO_STREAM));
    assert!(has_audio_stream(1));
    assert_eq!(sample_time(20_000), Some(200_000));
    assert_eq!(sample_time(9), Some(90));
    assert_eq!(sample_time(u64::MAX), None);
}

#[test]
fn mixed_stream_format() {
    assert_eq!(mixed_params(), MixParams { sample_rate: 48_000, channels: 1 });
    assert_eq!(OUT_RATE, 48_000);
}

#[test]
fn capture_stream_choice() {
    assert_eq!(capture_streams(false, false), Err(AudioError::NoSourceEnabled));
    assert_eq!(capture_streams(true, false), Ok(vec![true]));
    assert_eq!(capture_streams(false, true), Ok(vec![false]));
    assert_eq!(capture_streams(true, true), Ok(vec![true, false]));
    assert_eq!(AudioError::NoSourceEnabled.message(), "no audio source enabled");
}

#[test]
fn samples_are_little_endian() {
    assert_eq!(sample_le_bytes(0x1234), [0x34, 0x12]);
    assert_eq!(sample_le_bytes(-2), [0xfe, 0xff]);
    assert_eq!(sample_le_bytes(i16::MIN), (i16::MIN).to_le_bytes());
    assert_eq!(sample_le_bytes(32767), 32767i16.to_le_bytes());
}

#[test]
fn chunker_emits_twenty_millisecond_chunks() {
    let mut c = PcmChunker::new();
    for i in 0..CHUNK_SAMPLES - 1 {
        assert!(c.push(i as i16, 1000 + i as u64).is_none());
    }
    let (chunk, ts) = c.push(7, 99_999).unwrap();
    assert_eq!(chunk.len(), CHUNK_SAMPLES * 2);
    assert_eq!(ts, 1000);
    assert_eq!(&chunk[0..4], &[0, 0, 1, 0]);
    assert_eq!(&chunk[chunk.len() - 2..], &[7, 0]);
    // the next chunk is stamped with its own first sample
    assert!(c.push(-1, 5_000).is_none());
    assert!(c.push(2, 6_000).is_none());
    let (rest, ts) = c.finish().unwrap();
    assert_eq!(rest, vec![0xff, 0xff, 2, 0]);
    assert_eq!(ts, 5_000);
}

#[test]
fn chunker_finish_empty() {
    assert!(PcmChunker::new().finish().is_none());
}

#[test]
fn rate_control_names() {
    assert_eq!(rate_control("cbr"), RateControl::Cbr);
    assert_eq!(rate_control("vbr"), RateControl::Vbr);
    assert_eq!(rate_control("CBR"), RateControl::Vbr);
    assert_eq!(rate_control(""), RateControl::Vbr);
}

#[test]
fn chunker_stream_keeps_every_sample_in_order() {
    let samples: Vec<i16> = (0..(2 * CHUNK_SAMPLES + 3)).map(|i| (i as i16).wrapping_mul(-37)).collect();
    let mut c = PcmChunker::new();
    let mut out: Vec<u8> = Vec::new();
    let mut chunks = 0;
    for (i, s) in samples.iter().enumerate() {
        if let Some((chunk, _)) = c.push(*s, i as u64) {
            assert_eq!(chunk.len(), CHUNK_SAMPLES * 2);
            out.extend_from_slice(&chunk);
            chunks += 1;
        }
    }
    assert_eq!(chunks, 2);
    let (rest, ts) = c.finish().unwrap();
    assert_eq!(rest.len(), 6);
    assert_eq!(ts, (2 * CHUNK_SAMPLES) as u64);
    out.extend_from_slice(&rest);
    let expected: Vec<u8> = samples.iter().flat_map(|s| s.to_le_bytes()).collect();
    assert_eq!(out, expected);
}
