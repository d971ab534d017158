use screen_recorder::recorder::{
    limits_can_be_checked, micros_or_zero, now_us, should_auto_stop,
    FrameClock, Recorder, State, StopLimits, WorkerStep,
};

#[test]
fn new_recorder_is_recording() {
    let r = Recorder::new(1_000, "out.mp4".to_string());
    assert_eq!(r.state(), State::Recording);
    assert!(!r.is_paused());
    assert!(!r.stop_requested());
    assert_eq!(r.paused_total_us(), 0);
    let p = r.progress(6_000);
    assert_eq!((p.state, p.duration_us, p.frames), (State::Recording, 5_000, 0));
}

#[test]
fn pause_then_resume_adds_pause_length() {
    let mut r = Recorder::new(0, "a.mp4".to_string());
    r.pause(100);
    assert_eq!(r.state(), State::Paused);
    assert!(r.is_paused());
    r.pause(150); // already paused: keeps the first start
    r.resume(400);
    assert_eq!(r.state(), State::Recording);
    assert!(!r.is_paused());
    assert_eq!(r.paused_total_us(), 300);
    // recorded time excludes the pause
    assert_eq!(r.progress(1_000).duration_us, 700);
    r.resume(900); // not paused: nothing changes
    assert_eq!(r.paused_total_us(), 300);
}

#[test]
fn resume_with_clock_behind_pause_adds_nothing() {
    let mut r = Recorder::new(0, "a.mp4".to_string());
    r.pause(500);
    r.resume(200);
    assert_eq!(r.paused_total_us(), 0);
    assert_eq!(r.state(), State::Recording);
}

#[test]
fn progress_while_paused_and_idle() {
    let mut r = Recorder::new(10, "a.mp4".to_string());
    r.pause(0);
    let p = r.progress(110);
    assert_eq!((p.state, p.duration_us), (State::Paused, 100));
    r.mark_idle();
    let p = r.progress(1_000_000);
    assert_eq!((p.state, p.duration_us), (State::Idle, 0));
    // wall clock before the start counts as zero elapsed
    let r = Recorder::new(500, "a.mp4".to_string());
    assert_eq!(r.progress(100).duration_us, 0);
}

#[test]
fn toggle_pause_alternates() {
    let mut r = Recorder::new(0, "a.mp4".to_string());
    r.toggle_pause(10);
    assert_eq!(r.state(), State::Paused);
    r.toggle_pause(25);
    assert_eq!(r.state(), State::Recording);
    assert_eq!(r.paused_total_us(), 15);
}

#[test]
fn stop_hands_back_path() {
    let mut r = Recorder::new(0, "C:\\Videos\\x.mp4".to_string());
    assert_eq!(r.stop(), Some("C:\\Videos\\x.mp4".to_string()));
    assert!(r.stop_requested());
    assert_eq!(r.result_path(), "C:\\Videos\\x.mp4");
}

#[test]
fn frames_are_counted_and_limits_stop() {
    let mut r = Recorder::new(0, "a.mp4".to_string());
    let limits = StopLimits { max_duration_us: Some(6_000_000), max_file_mb: Some(1) };
    assert!(!r.frame_written(&limits, 1_000_000, 10));
    assert_eq!(r.progress(0).frames, 1);
    assert!(!r.stop_requested());
    assert!(r.frame_written(&limits, 6_000_000, 10));
    assert!(r.stop_requested());
    assert_eq!(r.progress(0).frames, 2);
}

#[test]
fn auto_stop_limits() {
    let none = StopLimits { max_duration_us: None, max_file_mb: None };
    assert!(!should_auto_stop(&none, u64::MAX, u64::MAX));
    let dur = StopLimits { max_duration_us: Some(6_000_000), max_file_mb: None };
    assert!(!should_auto_stop(&dur, 5_999_999, 0));
    assert!(should_auto_stop(&dur, 6_000_000, 0));
    let size = StopLimits { max_duration_us: None, max_file_mb: Some(2) };
    assert!(!should_auto_stop(&size, 0, 2 * 1024 * 1024 - 1));
    assert!(should_auto_stop(&size, 0, 2 * 1024 * 1024));
}

#[test]
fn frame_clock_cuts_pauses_and_keeps_order() {
    let mut c = FrameClock::new();
    assert_eq!(c.last_ts(), 0);
    assert_eq!(c.stamp(33_000, 0), 33_000);
    // 20 ms paused: the capture time is shifted back
    assert_eq!(c.stamp(86_000, 20_000), 66_000);
    // a frame that would not be later than the last is pushed just past it
    assert_eq!(c.stamp(70_000, 20_000), 66_001);
    assert_eq!(c.stamp(10, 20_000), 66_002);
    assert_eq!(c.last_ts(), 66_002);
}

#[test]
fn micros_conversion() {
    assert_eq!(micros_or_zero(None), 0);
    assert_eq!(micros_or_zero(Some(1_700_000_000_000_000)), 1_700_000_000_000_000);
    assert_eq!(micros_or_zero(Some((1u128 << 64) + 5)), 5);
}

#[test]
fn clock_reads_after_2020() {
    assert!(now_us() > 1_577_836_800_000_000);
}

#[test]
fn limit_checks_that_would_overflow() {
    let huge = StopLimits { max_duration_us: Some(10), max_file_mb: Some(u64::MAX) };
    assert!(!limits_can_be_checked(&huge, 5));
    assert!(limits_can_be_checked(&huge, 10));
    assert!(should_auto_stop(&huge, 10, 0));
    let ok = StopLimits { max_duration_us: None, max_file_mb: Some(u64::MAX / 1_048_576) };
    assert!(limits_can_be_checked(&ok, 0));
}

#[test]
fn worker_steps() {
    let mut r = Recorder::new(0, "a.mp4".to_string());
    assert_eq!(r.worker_step(), WorkerStep::Receive);
    r.pause(5);
    assert_eq!(r.worker_step(), WorkerStep::Wait);
    r.request_stop();
    assert_eq!(r.worker_step(), WorkerStep::Finish);
    r.resume(9);
    assert_eq!(r.worker_step(), WorkerStep::Finish);
}

#[test]
fn recorder_stopped_while_paused_resumes_to_recording() {
    let mut r = Recorder::new(0, "a.mp4".to_string());
    r.pause(100);
    r.mark_idle();
    assert_eq!(r.state(), State::Idle);
    assert!(r.is_paused());
    r.pause(200); // the pause already in progress is kept
    r.resume(350);
    assert_eq!(r.state(), State::Recording);
    assert!(!r.is_paused());
    assert_eq!(r.paused_total_us(), 250);
}

#[test]
fn timeline_continues_across_pause() {
    let mut r = Recorder::new(0, "a.mp4".to_string());
    let mut c = FrameClock::new();
    // last frame before the pause, captured at 33 ms
    let last = c.stamp(33_000, r.paused_total_us());
    assert_eq!(last, 33_000);
    r.pause(40_000);
    assert_eq!(r.worker_step(), WorkerStep::Wait);
    r.resume(100_000);
    assert_eq!(r.worker_step(), WorkerStep::Receive);
    // a frame captured at 120 ms: 87 ms later, 60 ms of which were paused
    let next = c.stamp(120_000, r.paused_total_us());
    assert_eq!(next, last + (120_000 - 33_000) - (100_000 - 40_000));
    assert_eq!(next, 60_000);
}
