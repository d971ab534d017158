//! Audio: which capture streams to open, the format of the mixed stream, and the
//! batching of mixed 16-bit samples into PCM chunks for the encoder.

use vstd::prelude::*;

verus! {

/// Sample rate of the mixed stream.
pub const OUT_RATE: u32 = 48_000;

/// Samples per PCM chunk: 20 ms at `OUT_RATE`.
pub const CHUNK_SAMPLES: usize = 960;

#[derive(Clone, Copy, Debug, PartialEq, Eq, Structural)]
pub struct AudioParams {
    pub sample_rate: u32,
    pub channels: u16,
}

/// The mixed stream: mono at 48 kHz.
pub fn mixed_params() -> (p: AudioParams)
    ensures
        p == (AudioParams { sample_rate: OUT_RATE, channels: 1 }),
{
    AudioParams { sample_rate: OUT_RATE, channels: 1 }
}

#[derive(Clone, Copy, Debug, PartialEq, Eq, Structural)]
pub enum AudioError {
    NoSourceEnabled,
}

impl AudioError {
    pub fn message(&self) -> (m: String)
        ensures
            m@ == "no audio source enabled"@,
    {
        match self {
            AudioError::NoSourceEnabled => String::from_str("no audio source enabled"),
        }
    }
}

/// The capture streams to open, in order, each given by whether it is the loopback
/// of system output (`true`) or the microphone (`false`).
pub open spec fn streams_for(record_system: bool, record_mic: bool) -> Seq<bool> {
    (if record_system { seq![true] } else { Seq::empty() }) + (if record_mic { seq![false] } else { Seq::empty() })
}

/// The capture streams to open: system output first, then the microphone; an error
/// when neither is wanted.
pub fn capture_streams(record_system: bool, record_mic: bool) -> (r: Result<Vec<bool>, AudioError>)
    ensures
        !record_system && !record_mic ==> r == Err::<Vec<bool>, AudioError>(AudioError::NoSourceEnabled),
        record_system || record_mic ==> (r matches Ok(v) && v@ == streams_for(record_system, record_mic)),
{
    if !record_system && !record_mic {
        return Err(AudioError::NoSourceEnabled);
    }
    let mut v: Vec<bool> = Vec::new();
    if record_system {
        v.push(true);
    }
    if record_mic {
        v.push(false);
    }
    assert(v@ =~= streams_for(record_system, record_mic));
    Ok(v)
}

/// The two little-endian bytes of a 16-bit sample.
pub open spec fn le_bytes(v: i16) -> Seq<u8> {
    seq![((v as u16) % 256) as u8, ((v as u16) / 256) as u8]
}

/// `v.to_le_bytes()`.
pub fn sample_le_bytes(v: i16) -> (b: [u8; 2])
    ensures
        b@ == le_bytes(v),
{
    let u = v as u16;
    let lo = (u & 0xff) as u8;
    let hi = (u >> 8) as u8;
    assert(lo == (u % 256) as u8 && hi == (u / 256) as u8) by (bit_vector)
        requires
            lo == (u & 0xff) as u8,
            hi == (u >> 8) as u8,
    ;
    let b = [lo, hi];
    assert(b@ =~= le_bytes(v));
    b
}

/// The model of a chunker: the PCM bytes gathered for the next chunk and the
/// timestamp of its first sample.
pub struct ChunkerView {
    pub pending: Seq<u8>,
    pub chunk_ts: Option<u64>,
}

/// One push, on the bytes alone: the chunk handed out, if the new sample completes
/// one, and the bytes left pending.
pub open spec fn pushed(pending: Seq<u8>, sample: i16) -> (Option<Seq<u8>>, Seq<u8>) {
    let bytes = pending + le_bytes(sample);
    if bytes.len() >= CHUNK_SAMPLES * 2 {
        (Some(bytes), Seq::empty())
    } else {
        (None, bytes)
    }
}

/// Pushing `samples` one after another onto `pending`: the chunks handed out, in
/// order, and the bytes left pending at the end.
pub open spec fn pushed_all(pending: Seq<u8>, samples: Seq<i16>) -> (Seq<Seq<u8>>, Seq<u8>)
    decreases samples.len(),
{
    if samples.len() == 0 {
        (Seq::empty(), pending)
    } else {
        let (out, rest) = pushed(pending, samples[0]);
        let (chunks, left) = pushed_all(rest, samples.drop_first());
        (
            match out {
                Some(c) => seq![c] + chunks,
                None => chunks,
            },
            left,
        )
    }
}

/// The little-endian bytes of `samples`, one after another.
pub open spec fn samples_le_bytes(samples: Seq<i16>) -> Seq<u8>
    decreases samples.len(),
{
    if samples.len() == 0 {
        Seq::empty()
    } else {
        le_bytes(samples[0]) + samples_le_bytes(samples.drop_first())
    }
}

/// Chunks laid end to end.
pub open spec fn joined(chunks: Seq<Seq<u8>>) -> Seq<u8>
    decreases chunks.len(),
{
    if chunks.len() == 0 {
        Seq::empty()
    } else {
        chunks[0] + joined(chunks.drop_first())
    }
}

/// Gathers mixed samples into chunks of `CHUNK_SAMPLES` little-endian 16-bit samples,
/// each stamped with the timestamp of its first sample.
pub struct PcmChunker {
    acc: Vec<u8>,
    chunk_ts: Option<u64>,
}

impl View for PcmChunker {
    type V = ChunkerView;

    closed spec fn view(&self) -> ChunkerView {
        ChunkerView { pending: self.acc@, chunk_ts: self.chunk_ts }
    }
}

impl PcmChunker {
    /// Fewer bytes than a chunk are pending, a whole number of samples, stamped
    /// exactly when some are pending.
    pub closed spec fn wf(&self) -> bool {
        &&& self.acc@.len() < CHUNK_SAMPLES * 2
        &&& self.acc@.len() % 2 == 0
        &&& (self.chunk_ts is Some <==> self.acc@.len() > 0)
    }

    pub fn new() -> (c: PcmChunker)
        ensures
            c.wf(),
            c@.pending == Seq::<u8>::empty(),
            c@.chunk_ts is None,
    {
        PcmChunker { acc: Vec::new(), chunk_ts: None }
    }

    /// Add one sample taken at `ts_us`; when that completes a chunk, hand it out with
    /// the timestamp of its first sample and start over.
    pub fn push(&mut self, sample: i16, ts_us: u64) -> (out: Option<(Vec<u8>, u64)>)
        requires
            old(self).wf(),
        ensures
            final(self).wf(),
            final(self)@.pending == pushed(old(self)@.pending, sample).1,
            (match out {
                Some((chunk, _)) => Some(chunk@),
                None => None,
            }) == pushed(old(self)@.pending, sample).0,
            ({
                let bytes = old(self)@.pending + le_bytes(sample);
                let ts = match old(self)@.chunk_ts {
                    Some(t) => t,
                    None => ts_us,
                };
                if bytes.len() >= CHUNK_SAMPLES * 2 {
                    &&& out matches Some((chunk, t)) && chunk@ == bytes && t == ts
                    &&& final(self)@.pending == Seq::<u8>::empty()
                    &&& final(self)@.chunk_ts is None
                } else {
                    &&& out is None
                    &&& final(self)@.pending == bytes
                    &&& final(self)@.chunk_ts == Some(ts)
                }
            }),
    {
        if self.chunk_ts.is_none() {
            self.chunk_ts = Some(ts_us);
        }
        let b = sample_le_bytes(sample);
        self.acc.push(b[0]);
        self.acc.push(b[1]);
        if self.acc.len() >= CHUNK_SAMPLES * 2 {
            let mut chunk: Vec<u8> = Vec::new();
            std::mem::swap(&mut chunk, &mut self.acc);
            let ts = match self.chunk_ts {
                Some(t) => t,
                None => 0,
            };
            self.chunk_ts = None;
            Some((chunk, ts))
        } else {
            None
        }
    }

    /// At the end of the stream: the samples still pending, if any, as a last short
    /// chunk stamped with its first sample's time.
    pub fn finish(self) -> (out: Option<(Vec<u8>, u64)>)
        requires
            self.wf(),
        ensures
            self@.pending.len() == 0 ==> out is None,
            self@.pending.len() > 0 ==> (out matches Some((chunk, t)) && chunk@ == self@.pending
                && Some(t) == self@.chunk_ts),
    {
        if self.acc.len() > 0 {
            let ts = match self.chunk_ts {
                Some(t) => t,
                None => 0,
            };
            Some((self.acc, ts))
        } else {
            None
        }
    }
}

/// No sample is lost or reordered: what a push hands out followed by what stays
/// pending is what was pending followed by the new sample's bytes; and every chunk
/// handed out is exactly `CHUNK_SAMPLES` samples (20 ms).
pub proof fn law_chunker_keeps_every_sample(
    before: ChunkerView,
    sample: i16,
    out: Option<Seq<u8>>,
    after: ChunkerView,
)
    requires
        before.pending.len() < CHUNK_SAMPLES * 2,
        before.pending.len() % 2 == 0,
        ({
            let bytes = before.pending + le_bytes(sample);
            if bytes.len() >= CHUNK_SAMPLES * 2 {
                out == Some(bytes) && after.pending == Seq::<u8>::empty()
            } else {
                out is None && after.pending == bytes
            }
        }),
    ensures
        (match out {
            Some(c) => c,
            None => Seq::<u8>::empty(),
        }) + after.pending == before.pending + le_bytes(sample),
        out matches Some(c) ==> c.len() == CHUNK_SAMPLES * 2,
{
    assert(Seq::<u8>::empty() + before.pending + le_bytes(sample) =~= before.pending + le_bytes(sample));
    assert((before.pending + le_bytes(sample)) + Seq::<u8>::empty() =~= before.pending + le_bytes(sample));
}

/// Over a whole stream nothing is lost, added or reordered: pushing any samples onto
/// what is pending hands out chunks that, laid end to end and followed by what is
/// left pending, are the pending bytes followed by every sample's bytes in order;
/// every chunk handed out is exactly `CHUNK_SAMPLES` samples, and less than a chunk
/// is left for `finish`.
pub proof fn law_chunker_stream_keeps_every_sample(pending: Seq<u8>, samples: Seq<i16>)
    requires
        pending.len() < CHUNK_SAMPLES * 2,
        pending.len() % 2 == 0,
    ensures
        joined(pushed_all(pending, samples).0) + pushed_all(pending, samples).1 == pending
            + samples_le_bytes(samples),
        forall|i: int|
            0 <= i < pushed_all(pending, samples).0.len() ==> (#[trigger] pushed_all(pending, samples).0[i]).len()
                == CHUNK_SAMPLES * 2,
        pushed_all(pending, samples).1.len() < CHUNK_SAMPLES * 2,
        pushed_all(pending, samples).1.len() % 2 == 0,
    decreases samples.len(),
{
    if samples.len() == 0 {
        assert(samples_le_bytes(samples) =~= Seq::<u8>::empty());
        assert(Seq::<u8>::empty() + pending =~= pending + Seq::<u8>::empty());
    } else {
        let (out, rest) = pushed(pending, samples[0]);
        let tail = samples.drop_first();
        law_chunker_stream_keeps_every_sample(rest, tail);
        let (chunks, left) = pushed_all(rest, tail);
        let bytes = pending + le_bytes(samples[0]);
        match out {
            Some(c) => {
                let all = seq![c] + chunks;
                assert(all[0] == c);
                assert(all.drop_first() =~= chunks);
                assert(joined(all) == c + joined(chunks));
                assert(rest =~= Seq::<u8>::empty());
                assert(Seq::<u8>::empty() + samples_le_bytes(tail) =~= samples_le_bytes(tail));
                assert(c + joined(chunks) + left =~= bytes + samples_le_bytes(tail));
                assert forall|i: int| 0 <= i < all.len() implies (#[trigger] all[i]).len() == CHUNK_SAMPLES * 2 by {
                    if i > 0 {
                        assert(all[i] == chunks[i - 1]);
                    }
                }
            },
            None => {
                assert(rest == bytes);
            },
        }
        assert(pending + samples_le_bytes(samples) =~= bytes + samples_le_bytes(tail));
    }
}

} // verus!
