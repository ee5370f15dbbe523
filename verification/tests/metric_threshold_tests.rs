use mic::{get_frame_avg, is_loud, CalibrationError, Calibrator, NoiseMultiplier, Threshold, METRIC_MAX};

fn constant_frame(value: i16, len: usize) -> Vec<i16> {
    vec![value; len]
}

#[test]
fn metric_of_all_zero_frame_is_zero() {
    let frame = constant_frame(0, 512);
    assert_eq!(get_frame_avg(&frame), 0);
}

#[test]
fn metric_of_empty_frame_is_zero() {
    let frame: Vec<i16> = Vec::new();
    assert_eq!(get_frame_avg(&frame), 0);
}

#[test]
fn metric_is_deterministic() {
    let frame = vec![12, -7, 300, -300, 0, 31];
    assert_eq!(get_frame_avg(&frame), get_frame_avg(&frame));
    let copy = frame.clone();
    assert_eq!(get_frame_avg(&frame), get_frame_avg(&copy));
}

#[test]
fn metric_is_mean_absolute_value_rounded_down() {
    // (1 + 2 + 3) / 3 = 2
    assert_eq!(get_frame_avg(&vec![1, -2, 3]), 2);
    // (1 + 2 + 4) / 3 = 7 / 3 = 2 rounded down
    assert_eq!(get_frame_avg(&vec![1, 2, -4]), 2);
    // constant magnitude
    assert_eq!(get_frame_avg(&constant_frame(-100, 512)), 100);
}

#[test]
fn metric_of_full_scale_frame_is_metric_max() {
    let frame = constant_frame(i16::MIN, 4);
    assert_eq!(get_frame_avg(&frame), METRIC_MAX);
    assert_eq!(get_frame_avg(&frame), 32768);
}

#[test]
fn calibration_threshold_is_mean_times_multiplier() {
    // Four frames of constant metric 100, multiplier 2/1:
    // threshold = (100 * 4) * 2 / (4 * 1) = 800 / 4 = 200 exactly.
    let mult = NoiseMultiplier::new(2, 1);
    let mut cal = Calibrator::new(4, mult);
    for _ in 0..4 {
        assert!(!cal.is_complete());
        let m = cal.add_frame(&constant_frame(100, 8));
        assert_eq!(m, 100);
    }
    assert!(cal.is_complete());
    let t = cal.finish().unwrap();
    assert_eq!(t.num, 800);
    assert_eq!(t.den, 4);
    // For a constant metric m the threshold equals m * multiplier exactly:
    // 800 / 4 == 200 == 100 * 2.
    assert_eq!(t.num, 100 * 2 * t.den);
}

#[test]
fn calibration_uses_exactly_the_configured_frame_count() {
    let mult = NoiseMultiplier::default();
    let mut cal = Calibrator::new(3, mult);
    cal.add_frame(&constant_frame(10, 4));
    cal.add_frame(&constant_frame(20, 4));
    assert!(!cal.is_complete());
    cal.add_frame(&constant_frame(30, 4));
    assert!(cal.is_complete());
    let t = cal.finish().unwrap();
    // sum = 60, count = 3, multiplier 2/1: threshold = 120 / 3 = 40.
    assert_eq!(t.num, 120);
    assert_eq!(t.den, 3);
}

#[test]
fn calibration_with_fractional_multiplier_is_exact() {
    // Multiplier 3/2 on metrics 10 and 20: threshold = 30 * 3 / (2 * 2) = 90/4.
    let mult = NoiseMultiplier::new(3, 2);
    let mut cal = Calibrator::new(2, mult);
    cal.add_frame(&constant_frame(10, 4));
    cal.add_frame(&constant_frame(20, 4));
    let t = cal.finish().unwrap();
    assert_eq!(t.num, 90);
    assert_eq!(t.den, 4);
}

#[test]
fn loudness_is_strictly_above_threshold() {
    // Threshold 800/4 = 200.
    let t = Threshold { num: 800, den: 4 };
    assert!(is_loud(201, &t));
    assert!(!is_loud(200, &t));
    assert!(!is_loud(0, &t));
}

#[test]
fn silent_ambient_calibration_is_rejected() {
    // A dead-silent ambient has a zero mean, from which no positive
    // threshold can be derived: calibration fails instead of producing a
    // zero threshold.
    let mult = NoiseMultiplier::default();
    let mut cal = Calibrator::new(2, mult);
    cal.add_frame(&constant_frame(0, 8));
    cal.add_frame(&constant_frame(0, 8));
    let r = cal.finish();
    assert_eq!(r, Err(CalibrationError::SilentAmbient));
    assert_eq!(
        CalibrationError::SilentAmbient.message(),
        "calibration heard only silence: no usable threshold"
    );
}

#[test]
fn quiet_but_not_silent_ambient_still_calibrates() {
    // One faint frame is enough for a positive mean and a positive
    // threshold: metrics 0 and 2, multiplier 2/1, threshold = 4/2 = 2.
    let mult = NoiseMultiplier::default();
    let mut cal = Calibrator::new(2, mult);
    cal.add_frame(&constant_frame(0, 8));
    cal.add_frame(&constant_frame(2, 8));
    let t = cal.finish().unwrap();
    assert_eq!(t.num, 4);
    assert_eq!(t.den, 2);
    assert!(is_loud(3, &t));
    assert!(!is_loud(2, &t));
}
