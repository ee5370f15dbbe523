use mic::{Phase, RecordingSession, Threshold};

// Threshold 50: a frame of constant magnitude 100 is loud, a zero frame is
// silent.
fn threshold_50() -> Threshold {
    Threshold { num: 50, den: 1 }
}

fn loud_frame() -> Vec<i16> {
    vec![100; 4]
}

fn silent_frame() -> Vec<i16> {
    vec![0; 4]
}

#[test]
fn session_starts_armed_with_empty_buffer() {
    let s = RecordingSession::new(threshold_50(), 3);
    assert_eq!(s.phase, Phase::Armed);
    assert_eq!(s.silence_run, 0);
    assert!(s.buffer.is_empty());
    assert!(!s.is_terminated());
}

#[test]
fn session_terminates_after_loud_then_silent_limit() {
    // k = 2 loud frames followed by exactly silent_limit = 3 silent frames:
    // the session terminates after frame k + silent_limit = 5 and the buffer
    // holds all 5 frames.
    let mut s = RecordingSession::new(threshold_50(), 3);
    let frames = vec![
        loud_frame(),
        loud_frame(),
        silent_frame(),
        silent_frame(),
        silent_frame(),
    ];
    let n = s.feed_frames(&frames);
    assert_eq!(n, 5);
    assert!(s.is_terminated());
    assert_eq!(s.phase, Phase::Terminated);
    assert_eq!(s.buffer.len(), 5 * 4);
}

#[test]
fn session_stops_reading_at_termination() {
    // Extra frames beyond the terminating one are not consumed or buffered.
    let mut s = RecordingSession::new(threshold_50(), 2);
    let frames = vec![
        loud_frame(),
        silent_frame(),
        silent_frame(),
        loud_frame(),
        loud_frame(),
    ];
    let n = s.feed_frames(&frames);
    assert_eq!(n, 3);
    assert!(s.is_terminated());
    assert_eq!(s.buffer.len(), 3 * 4);
}

#[test]
fn leading_silence_is_buffered_not_trimmed() {
    let mut s = RecordingSession::new(threshold_50(), 2);
    let frames = vec![silent_frame(), silent_frame(), loud_frame()];
    let n = s.feed_frames(&frames);
    assert_eq!(n, 3);
    assert!(!s.is_terminated());
    assert_eq!(s.buffer.len(), 3 * 4);
    assert_eq!(&s.buffer[0..4], &[0, 0, 0, 0]);
    assert_eq!(&s.buffer[8..12], &[100, 100, 100, 100]);
}

#[test]
fn all_silent_session_never_terminates() {
    // A sequence that never exceeds the threshold never terminates: the
    // session stays Armed over an arbitrarily long run of silent frames.
    let mut s = RecordingSession::new(threshold_50(), 3);
    let frames = vec![silent_frame(); 1000];
    let n = s.feed_frames(&frames);
    assert_eq!(n, 1000);
    assert!(!s.is_terminated());
    assert_eq!(s.phase, Phase::Armed);
    assert_eq!(s.silence_run, 0);
    assert_eq!(s.buffer.len(), 1000 * 4);
}

#[test]
fn short_silent_runs_never_terminate_and_loud_resets_run() {
    // Alternating pattern: one loud frame, then two silent ones, with
    // silent_limit = 3; the silent runs never reach the limit, so the
    // session stays Active and every loud frame resets the run to 0.
    let mut s = RecordingSession::new(threshold_50(), 3);
    for _ in 0..10 {
        s.step(&loud_frame());
        assert_eq!(s.phase, Phase::Active);
        assert_eq!(s.silence_run, 0);
        s.step(&silent_frame());
        assert_eq!(s.phase, Phase::Active);
        assert_eq!(s.silence_run, 1);
        s.step(&silent_frame());
        assert_eq!(s.phase, Phase::Active);
        assert_eq!(s.silence_run, 2);
    }
    assert!(!s.is_terminated());
    assert_eq!(s.buffer.len(), 30 * 4);
}

#[test]
fn silence_while_armed_is_not_counted() {
    let mut s = RecordingSession::new(threshold_50(), 2);
    for _ in 0..5 {
        s.step(&silent_frame());
        assert_eq!(s.phase, Phase::Armed);
        assert_eq!(s.silence_run, 0);
    }
    // The first loud frame arms the silence counter.
    s.step(&loud_frame());
    assert_eq!(s.phase, Phase::Active);
    assert_eq!(s.silence_run, 0);
}

#[test]
fn boundary_metric_equal_to_threshold_is_silent() {
    // A frame whose metric equals the threshold exactly does not count as
    // loud: only a strictly greater metric does.
    let mut s = RecordingSession::new(Threshold { num: 100, den: 1 }, 2);
    s.step(&vec![100; 4]);
    assert_eq!(s.phase, Phase::Armed);
    s.step(&vec![101; 4]);
    assert_eq!(s.phase, Phase::Active);
}

#[test]
fn buffer_keeps_sample_order() {
    let mut s = RecordingSession::new(threshold_50(), 2);
    s.step(&vec![1, 2, 3]);
    s.step(&vec![4, 5, 6]);
    assert_eq!(s.buffer, vec![1, 2, 3, 4, 5, 6]);
}
