//! Recording control: the pause/resume/stop state shared between the UI and the
//! encoding worker, the worker's frame timeline and its auto-stop rule.

use vstd::prelude::*;

verus! {

/// Where a recording stands.
#[derive(Clone, Copy, Debug, PartialEq, Eq, Structural)]
pub enum State {
    Idle,
    Recording,
    Paused,
}

/// A snapshot of a recording for display: its state, how long it has recorded
/// (pauses excluded) and how many video frames went to the encoder.
#[derive(Clone, Copy, Debug, PartialEq, Eq, Structural)]
pub struct Progress {
    pub state: State,
    pub duration_us: u64,
    pub frames: u64,
}

/// The model of a recorder's control state.
pub struct RecorderView {
    pub state: State,
    /// Monotonic clock reading (µs) at which the pause in progress began, if any (a
    /// recording stopped while paused keeps it).
    pub pause_started_at: Option<u64>,
    /// Total time spent paused so far (µs), added up modulo 2^64.
    pub paused_total_us: u64,
    pub stop_requested: bool,
    pub frames: u64,
    /// Wall clock (µs since the Unix epoch) at which recording started.
    pub start_us: u64,
    pub result_path: Seq<char>,
}

/// Where a recording stands together with the start of a pause in progress: a
/// running recording has none, a paused one always has one, and a finished one
/// keeps the pause it was stopped in, if any.
enum Phase {
    Idle(Option<u64>),
    Recording,
    Paused(u64),
}

/// Control state of one recording, shared by the UI thread and the encoding worker.
pub struct Recorder {
    phase: Phase,
    paused_total_us: u64,
    stop_requested: bool,
    frames: u64,
    start_us: u64,
    result_path: String,
}

impl View for Recorder {
    type V = RecorderView;

    closed spec fn view(&self) -> RecorderView {
        RecorderView {
            state: match self.phase {
                Phase::Idle(_) => State::Idle,
                Phase::Recording => State::Recording,
                Phase::Paused(_) => State::Paused,
            },
            pause_started_at: match self.phase {
                Phase::Idle(t) => t,
                Phase::Recording => None,
                Phase::Paused(t) => Some(t),
            },
            paused_total_us: self.paused_total_us,
            stop_requested: self.stop_requested,
            frames: self.frames,
            start_us: self.start_us,
            result_path: self.result_path@,
        }
    }
}

/// `a - b`, or 0 where `b` exceeds `a`.
pub open spec fn sat_sub(a: int, b: int) -> int {
    if a >= b { a - b } else { 0 }
}

/// The control state after a pause request at monotonic time `now`: a running
/// recording becomes paused and remembers when; a paused one is left as it is.
pub open spec fn paused_at(r: RecorderView, now: u64) -> RecorderView {
    if r.pause_started_at is None {
        RecorderView { state: State::Paused, pause_started_at: Some(now), ..r }
    } else {
        r
    }
}

/// The control state after a resume request at monotonic time `now`: the length of
/// the pause (zero if the clock reads earlier than its start) is added to the paused
/// total, and the recording runs again. Without a pause in progress nothing changes.
pub open spec fn resumed_at(r: RecorderView, now: u64) -> RecorderView {
    match r.pause_started_at {
        Some(t) => RecorderView {
            state: State::Recording,
            pause_started_at: None,
            paused_total_us: r.paused_total_us.wrapping_add(sat_sub(now as int, t as int) as u64),
            ..r
        },
        None => r,
    }
}

/// Whether a snapshot reports elapsed time: while recording, or while paused with
/// the pause's start known.
pub open spec fn clock_counts(r: RecorderView) -> bool {
    r.state == State::Recording || (r.state == State::Paused && r.pause_started_at is Some)
}

/// Recorded time at wall-clock `now_us`: time since the start minus the pauses
/// already ended (a pause in progress is subtracted once it ends); zero when idle.
pub open spec fn recorded_us(r: RecorderView, now_us: u64) -> int {
    if clock_counts(r) {
        sat_sub(now_us as int, r.start_us as int) - r.paused_total_us
    } else {
        0
    }
}

/// The recorded time can be computed without going below zero.
pub open spec fn progress_defined(r: RecorderView, now_us: u64) -> bool {
    clock_counts(r) ==> sat_sub(now_us as int, r.start_us as int) >= r.paused_total_us
}

impl Recorder {
    /// A recorder that is recording, started at wall-clock `start_us`, writing to `result_path`.
    pub fn new(start_us: u64, result_path: String) -> (r: Recorder)
        ensures
            r@ == (RecorderView {
                state: State::Recording,
                pause_started_at: None,
                paused_total_us: 0,
                stop_requested: false,
                frames: 0,
                start_us,
                result_path: result_path@,
            }),
    {
        Recorder {
            phase: Phase::Recording,
            paused_total_us: 0,
            stop_requested: false,
            frames: 0,
            start_us,
            result_path,
        }
    }

    /// Pause at monotonic time `now_mono_us`; no effect while already paused.
    pub fn pause(&mut self, now_mono_us: u64)
        ensures
            final(self)@ == paused_at(old(self)@, now_mono_us),
    {
        match self.phase {
            Phase::Recording | Phase::Idle(None) => {
                self.phase = Phase::Paused(now_mono_us);
            },
            _ => {},
        }
    }

    /// Resume at monotonic time `now_mono_us`; no effect unless a pause is in progress.
    pub fn resume(&mut self, now_mono_us: u64)
        ensures
            final(self)@ == resumed_at(old(self)@, now_mono_us),
    {
        let started: Option<u64> = match self.phase {
            Phase::Paused(t) => Some(t),
            Phase::Idle(t) => t,
            Phase::Recording => None,
        };
        if let Some(t) = started {
            let us = now_mono_us.saturating_sub(t);
            self.paused_total_us = self.paused_total_us.wrapping_add(us);
            self.phase = Phase::Recording;
        }
    }

    /// Resume when the recorder reports itself paused, pause otherwise.
    pub fn toggle_pause(&mut self, now_mono_us: u64)
        ensures
            final(self)@ == (if old(self)@.state == State::Paused {
                resumed_at(old(self)@, now_mono_us)
            } else {
                paused_at(old(self)@, now_mono_us)
            }),
    {
        if let Phase::Paused(_) = self.phase {
            self.resume(now_mono_us);
        } else {
            self.pause(now_mono_us);
        }
    }

    /// Whether the worker should hold off encoding frames.
    pub fn is_paused(&self) -> (b: bool)
        ensures
            b == (self@.pause_started_at is Some),
    {
        match self.phase {
            Phase::Paused(_) | Phase::Idle(Some(_)) => true,
            _ => false,
        }
    }

    pub fn state(&self) -> (s: State)
        ensures
            s == self@.state,
    {
        match self.phase {
            Phase::Idle(_) => State::Idle,
            Phase::Recording => State::Recording,
            Phase::Paused(_) => State::Paused,
        }
    }

    pub fn paused_total_us(&self) -> (t: u64)
        ensures
            t == self@.paused_total_us,
    {
        self.paused_total_us
    }

    /// Ask the worker to finish the file.
    pub fn request_stop(&mut self)
        ensures
            final(self)@ == (RecorderView { stop_requested: true, ..old(self)@ }),
    {
        self.stop_requested = true;
    }

    pub fn stop_requested(&self) -> (b: bool)
        ensures
            b == self@.stop_requested,
    {
        self.stop_requested
    }

    /// One more video frame went to the encoder.
    pub fn count_frame(&mut self)
        ensures
            final(self)@ == (RecorderView { frames: old(self)@.frames.wrapping_add(1), ..old(self)@ }),
    {
        self.frames = self.frames.wrapping_add(1);
    }

    /// The worker is done with the file (or could not open it).
    pub fn mark_idle(&mut self)
        ensures
            final(self)@ == (RecorderView { state: State::Idle, ..old(self)@ }),
    {
        self.phase = match self.phase {
            Phase::Paused(t) => Phase::Idle(Some(t)),
            Phase::Idle(t) => Phase::Idle(t),
            Phase::Recording => Phase::Idle(None),
        };
    }

    /// Where the recording is written.
    pub fn result_path(&self) -> (p: String)
        ensures
            p@ == self@.result_path,
    {
        self.result_path.clone()
    }

    /// Stop the recording and hand back the path of the file.
    pub fn stop(&mut self) -> (p: Option<String>)
        ensures
            final(self)@ == (RecorderView { stop_requested: true, ..old(self)@ }),
            p matches Some(path) && path@ == old(self)@.result_path,
    {
        self.request_stop();
        Some(self.result_path.clone())
    }

    /// The wall-clock start, taken once the capture and the worker are running.
    pub fn set_start_us(&mut self, start_us: u64)
        ensures
            final(self)@ == (RecorderView { start_us, ..old(self)@ }),
    {
        self.start_us = start_us;
    }

    /// Whether a snapshot can be taken at wall-clock `now_us` (the paused time does not
    /// exceed the time since the start while the clock runs).
    pub fn can_report_progress(&self, now_us: u64) -> (b: bool)
        ensures
            b == progress_defined(self@, now_us),
    {
        let counts = match self.phase {
            Phase::Idle(_) => false,
            _ => true,
        };
        !counts || now_us.saturating_sub(self.start_us) >= self.paused_total_us
    }

    /// A snapshot at wall-clock `now_us`.
    pub fn progress(&self, now_us: u64) -> (p: Progress)
        requires
            progress_defined(self@, now_us),
        ensures
            p.state == self@.state,
            p.duration_us == recorded_us(self@, now_us),
            p.frames == self@.frames,
    {
        let dur_us: u64 = match self.phase {
            Phase::Idle(_) => 0,
            _ => now_us.saturating_sub(self.start_us) - self.paused_total_us,
        };
        Progress { state: self.state(), duration_us: dur_us, frames: self.frames }
    }
}


/// Limits at which a recording stops by itself.
#[derive(Clone, Copy, Debug, PartialEq, Eq, Structural)]
pub struct StopLimits {
    /// Stop once the recorded time reaches this many microseconds.
    pub max_duration_us: Option<u128>,
    /// Stop once the output file reaches this many MiB.
    pub max_file_mb: Option<u64>,
}

pub open spec fn duration_limit_reached(limits: StopLimits, ts_us: u64) -> bool {
    limits.max_duration_us matches Some(max_us) && ts_us >= max_us
}

pub open spec fn size_limit_reached(limits: StopLimits, file_bytes: u64) -> bool {
    limits.max_file_mb matches Some(mb) && file_bytes >= mb * 1_048_576
}

/// The size limit, when it is consulted, is a byte count that fits in a `u64`.
pub open spec fn limits_checkable(limits: StopLimits, ts_us: u64) -> bool {
    !duration_limit_reached(limits, ts_us) ==> (limits.max_file_mb matches Some(mb) ==> mb
        * 1_048_576 <= u64::MAX)
}

/// Whether a recording whose latest frame is stamped `ts_us` and whose file holds
/// `file_bytes` bytes has reached one of its limits.
pub fn should_auto_stop(limits: &StopLimits, ts_us: u64, file_bytes: u64) -> (stop: bool)
    requires
        limits_checkable(*limits, ts_us),
    ensures
        stop == (duration_limit_reached(*limits, ts_us) || size_limit_reached(*limits, file_bytes)),
        limits.max_duration_us matches Some(d) && ts_us >= d ==> stop,
        limits.max_file_mb matches Some(mb) && file_bytes >= mb * 1_048_576 ==> stop,
{
    if let Some(max_us) = limits.max_duration_us {
        if (ts_us as u128) >= max_us {
            return true;
        }
    }
    if let Some(mb) = limits.max_file_mb {
        if file_bytes >= mb * 1024 * 1024 {
            return true;
        }
    }
    false
}

/// Each limit stops a recording on its own: it stops exactly when the duration
/// limit is set and the frame's time reaches it, or the size limit is set and the
/// file reaches that many MiB, whether or not the other limit is set.
pub proof fn law_each_limit_stops_on_its_own(limits: StopLimits, ts_us: u64, file_bytes: u64)
    ensures
        (duration_limit_reached(limits, ts_us) || size_limit_reached(limits, file_bytes)) == ((
        limits.max_duration_us matches Some(d) && ts_us >= d) || (limits.max_file_mb matches Some(mb)
            && file_bytes >= mb * 1_048_576)),
        limits.max_file_mb matches Some(mb) && file_bytes >= mb * 1_048_576 ==> size_limit_reached(
            limits,
            file_bytes,
        ),
        limits.max_duration_us matches Some(d) && ts_us >= d ==> duration_limit_reached(limits, ts_us),
{
}

/// Whether `should_auto_stop` can be asked about a frame stamped `ts_us`.
pub fn limits_can_be_checked(limits: &StopLimits, ts_us: u64) -> (b: bool)
    ensures
        b == limits_checkable(*limits, ts_us),
{
    if let Some(max_us) = limits.max_duration_us {
        if (ts_us as u128) >= max_us {
            return true;
        }
    }
    match limits.max_file_mb {
        Some(mb) => mb <= u64::MAX / 1_048_576,
        None => true,
    }
}

/// The timestamp given to a frame captured at `raw_ts` when `paused_us` has been
/// spent paused and the previous frame was stamped `last_ts`: the capture time with
/// the pauses cut out, pushed past the previous stamp when it would not be later.
pub open spec fn next_frame_ts(last_ts: u64, raw_ts: u64, paused_us: u64) -> int {
    let shifted = sat_sub(raw_ts as int, paused_us as int);
    if shifted <= last_ts { last_ts + 1 } else { shifted }
}

/// The encoder-side timeline of the video stream.
pub struct FrameClock {
    last_ts: u64,
}

impl View for FrameClock {
    type V = u64;

    /// The timestamp of the last frame handed to the encoder.
    closed spec fn view(&self) -> u64 {
        self.last_ts
    }
}

impl FrameClock {
    /// The timeline right after the first frame, which is written at time zero.
    pub fn new() -> (c: FrameClock)
        ensures
            c@ == 0,
    {
        FrameClock { last_ts: 0 }
    }

    pub fn last_ts(&self) -> (t: u64)
        ensures
            t == self@,
    {
        self.last_ts
    }

    /// Stamp the next frame, captured at `raw_ts` with `paused_us` of pauses behind it.
    pub fn stamp(&mut self, raw_ts: u64, paused_us: u64) -> (ts: u64)
        requires
            old(self)@ < u64::MAX,
        ensures
            ts == next_frame_ts(old(self)@, raw_ts, paused_us),
            final(self)@ == ts,
    {
        let mut ts = raw_ts.saturating_sub(paused_us);
        if ts <= self.last_ts {
            ts = self.last_ts + 1;
        }
        self.last_ts = ts;
        ts
    }
}

impl Recorder {
    /// Account for a frame stamped `ts_us` that went to the encoder, with the output
    /// file now `file_bytes` long; request a stop when a limit is reached.
    pub fn frame_written(&mut self, limits: &StopLimits, ts_us: u64, file_bytes: u64) -> (stop: bool)
        requires
            limits_checkable(*limits, ts_us),
        ensures
            stop == (duration_limit_reached(*limits, ts_us) || size_limit_reached(
                *limits,
                file_bytes,
            )),
            final(self)@ == (RecorderView {
                frames: old(self)@.frames.wrapping_add(1),
                stop_requested: old(self)@.stop_requested || stop,
                ..old(self)@
            }),
    {
        self.count_frame();
        let stop = should_auto_stop(limits, ts_us, file_bytes);
        if stop {
            self.request_stop();
        }
        stop
    }
}

/// What the encoding worker does next.
#[derive(Clone, Copy, Debug, PartialEq, Eq, Structural)]
pub enum WorkerStep {
    /// Drain the last audio, finalize the file and go idle.
    Finish,
    /// Paused: wait a little and look again.
    Wait,
    /// Take the next captured frame.
    Receive,
}

/// The worker finishes once a stop was requested, waits while a pause is in
/// progress, and otherwise takes the next frame.
pub open spec fn worker_step_for(r: RecorderView) -> WorkerStep {
    if r.stop_requested {
        WorkerStep::Finish
    } else if r.pause_started_at is Some {
        WorkerStep::Wait
    } else {
        WorkerStep::Receive
    }
}

impl Recorder {
    /// What the encoding worker does next.
    pub fn worker_step(&self) -> (step: WorkerStep)
        ensures
            step == worker_step_for(self@),
    {
        if self.stop_requested {
            WorkerStep::Finish
        } else if self.is_paused() {
            WorkerStep::Wait
        } else {
            WorkerStep::Receive
        }
    }
}

/// Reads the system clock: the time elapsed since the Unix epoch, `None` when the
/// clock reads earlier than the epoch. Calls `std::time::SystemTime::elapsed` on
/// `UNIX_EPOCH`; nothing is claimed of the value, which depends on the clock.
#[verifier::external_body]
fn elapsed_since_unix_epoch() -> Option<std::time::Duration> {
    std::time::UNIX_EPOCH.elapsed().ok()
}

/// Calls `std::time::Duration::as_micros`. The duration is opaque here, so nothing
/// is claimed of the result.
#[verifier::external_body]
fn duration_micros(d: &std::time::Duration) -> u128 {
    d.as_micros()
}

/// Microseconds since the epoch as a `u64` (truncated as by `as`), or 0 without a reading.
pub fn micros_or_zero(elapsed_us: Option<u128>) -> (us: u64)
    ensures
        us == (match elapsed_us {
            Some(m) => m as u64,
            None => 0,
        }),
{
    match elapsed_us {
        Some(m) => m as u64,
        None => 0,
    }
}

/// Wall-clock time in microseconds since the Unix epoch, 0 if the clock is set
/// before the epoch. Any value may come back: it is read from the system clock.
pub fn now_us() -> u64 {
    let reading = match elapsed_since_unix_epoch() {
        Some(d) => Some(duration_micros(&d)),
        None => None,
    };
    micros_or_zero(reading)
}


/// A recorder's state and its pause agree: a running recording has no pause in
/// progress, and a paused one knows when its pause began.
pub open spec fn pause_consistent(r: RecorderView) -> bool {
    &&& r.state == State::Recording ==> r.pause_started_at is None
    &&& r.state == State::Paused ==> r.pause_started_at is Some
}

/// Every recorder, whatever it went through, has its state and its pause in agreement.
pub proof fn law_recorder_pause_consistent(r: Recorder)
    ensures
        pause_consistent(r@),
{
}

/// Resuming undoes a pause: a running recorder paused at `t0` and resumed at
/// `t1 >= t0` is running again, with `t1 - t0` more time counted as paused and
/// everything else as before; resuming it without a pause changes nothing.
pub proof fn law_resume_undoes_pause(r: Recorder, t0: u64, t1: u64)
    requires
        r@.state == State::Recording,
        t0 <= t1,
    ensures
        paused_at(r@, t0).state == State::Paused,
        resumed_at(paused_at(r@, t0), t1) == (RecorderView {
            paused_total_us: r@.paused_total_us.wrapping_add((t1 - t0) as u64),
            ..r@
        }),
        resumed_at(r@, t1) == r@,
{
}

/// A second pause request changes nothing: the pause keeps the time it began.
pub proof fn law_pause_is_idempotent(r: RecorderView, t0: u64, t1: u64)
    ensures
        paused_at(paused_at(r, t0), t1) == paused_at(r, t0),
{
}

/// A second resume request changes nothing: the pause is counted once.
pub proof fn law_resume_is_idempotent(r: RecorderView, t0: u64, t1: u64)
    ensures
        resumed_at(resumed_at(r, t0), t1) == resumed_at(r, t0),
{
}

/// Pauses are cut out of the recorded time: after a pause from `t0` to `t1` of a
/// running recorder, the time reported at `now` is the time since the start minus
/// everything paused, this pause included.
pub proof fn law_recorded_time_excludes_pause(r: Recorder, t0: u64, t1: u64, now: u64)
    requires
        r@.state == State::Recording,
        t0 <= t1,
        r@.paused_total_us + (t1 - t0) <= u64::MAX,
    ensures
        recorded_us(resumed_at(paused_at(r@, t0), t1), now) == sat_sub(now as int, r@.start_us as int)
            - r@.paused_total_us - (t1 - t0),
{
}

/// Video timestamps strictly increase, and a frame is never stamped earlier than
/// its capture time with the pauses cut out.
pub proof fn law_frame_timestamps_increase(last_ts: u64, raw_ts: u64, paused_us: u64)
    ensures
        next_frame_ts(last_ts, raw_ts, paused_us) > last_ts,
        next_frame_ts(last_ts, raw_ts, paused_us) >= sat_sub(raw_ts as int, paused_us as int),
        sat_sub(raw_ts as int, paused_us as int) > last_ts ==> next_frame_ts(last_ts, raw_ts, paused_us)
            == raw_ts - paused_us,
{
}


/// Toggling pause twice, `t1 >= t0` apart, returns a running recorder to running,
/// with the time in between counted as paused.
pub proof fn law_toggle_pause_twice(r: Recorder, t0: u64, t1: u64)
    requires
        r@.state == State::Recording,
        t0 <= t1,
    ensures
        ({
            let once = if r@.state == State::Paused { resumed_at(r@, t0) } else { paused_at(r@, t0) };
            let twice = if once.state == State::Paused { resumed_at(once, t1) } else { paused_at(once, t1) };
            twice == RecorderView { paused_total_us: r@.paused_total_us.wrapping_add((t1 - t0) as u64), ..r@ }
        }),
{
}

/// Across a pause the video timeline goes on where it stopped, with the pause cut
/// out. Take a running recorder with `r@.paused_total_us` paused so far, whose last
/// frame before the pause was captured at `a` and stamped `last_ts` (its capture
/// time less the time paused), paused at `t0 >= a` and resumed at `t1`. While the
/// pause lasts the worker takes no frame; a frame captured at `b >= t1` is then
/// stamped `b - a - (t1 - t0)` after that last frame, the time that passed outside
/// the pause (one microsecond when none did).
pub proof fn law_timeline_skips_pause(r: Recorder, a: u64, last_ts: u64, t0: u64, t1: u64, b: u64)
    requires
        r@.state == State::Recording,
        a <= t0 <= t1 <= b,
        r@.paused_total_us <= a,
        last_ts == a - r@.paused_total_us,
        r@.paused_total_us + (t1 - t0) <= u64::MAX,
    ensures
        !paused_at(r@, t0).stop_requested ==> worker_step_for(paused_at(r@, t0)) == WorkerStep::Wait,
        !r@.stop_requested ==> worker_step_for(resumed_at(paused_at(r@, t0), t1)) == WorkerStep::Receive,
        resumed_at(paused_at(r@, t0), t1).paused_total_us == r@.paused_total_us + (t1 - t0),
        b - a > t1 - t0 ==> next_frame_ts(last_ts, b, resumed_at(paused_at(r@, t0), t1).paused_total_us)
            == last_ts + (b - a) - (t1 - t0),
        b - a == t1 - t0 ==> next_frame_ts(last_ts, b, resumed_at(paused_at(r@, t0), t1).paused_total_us)
            == last_ts + 1,
{
}

/// Every operation keeps the state and the pause in agreement: pausing, resuming,
/// stopping, counting frames, auto-stopping, going idle and setting the start. (So a
/// paused recorder always reports the time recorded up to now, never zero.)
pub proof fn law_operations_keep_pause_consistent(
    r: RecorderView,
    now: u64,
    limits: StopLimits,
    ts_us: u64,
    file_bytes: u64,
    start_us: u64,
)
    requires
        pause_consistent(r),
    ensures
        pause_consistent(paused_at(r, now)),
        pause_consistent(resumed_at(r, now)),
        pause_consistent(RecorderView { stop_requested: true, ..r }),
        pause_consistent(RecorderView { frames: r.frames.wrapping_add(1), ..r }),
        pause_consistent(
            RecorderView {
                frames: r.frames.wrapping_add(1),
                stop_requested: r.stop_requested || duration_limit_reached(limits, ts_us)
                    || size_limit_reached(limits, file_bytes),
                ..r
            },
        ),
        pause_consistent(RecorderView { state: State::Idle, ..r }),
        pause_consistent(RecorderView { start_us, ..r }),
        r.state == State::Paused ==> clock_counts(r),
{
}

} // verus!
