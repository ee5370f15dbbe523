//! Voice-activity detection for a microphone capture module.
//!
//! The crate turns a stream of fixed-size audio frames into one bounded
//! recording session: it estimates an ambient-noise threshold from a fixed
//! number of calibration frames, classifies each frame as loud or silent by
//! its loudness metric, and decides through a silence-run state machine when
//! a session ends.  A textual level gauge and the resolution of a configured
//! device name to a backend index round the library off.  Capture, file
//! output and the message transport are the caller's business: the library
//! works on plain sample vectors and returns plain values.

pub mod device;
pub mod meter;
pub mod metric;
pub mod recorder;
pub mod session;
pub mod threshold;

pub use device::get_device_id;
pub use meter::{
    lemma_fill_clamped, lemma_fill_empty, lemma_fill_full, render, u64_to_string,
    LevelMeterConfig, BAR_WIDTH,
};
pub use metric::{get_frame_avg, lemma_metric_nonneg, lemma_zero_frame_metric, METRIC_MAX};
pub use recorder::{output_file_path, recording_path};
pub use session::{
    lemma_all_silent_never_terminates, lemma_buffer_accumulates, lemma_loud_resets,
    lemma_session_terminates, lemma_short_silence_no_termination, Phase, RecordingSession,
};
pub use threshold::{
    is_loud, lemma_constant_calibration, CalibrationError, Calibrator, NoiseMultiplier, Threshold,
};
