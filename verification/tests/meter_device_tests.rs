use mic::{get_device_id, output_file_path, recording_path, render, u64_to_string, LevelMeterConfig, BAR_WIDTH};

fn bar(stars: usize) -> String {
    let mut s = String::new();
    for _ in 0..stars {
        s.push('*');
    }
    for _ in stars..BAR_WIDTH {
        s.push(' ');
    }
    s
}

#[test]
fn render_zero_level_is_empty_fill() {
    let cfg = LevelMeterConfig { max_level: 1000, threshold: None };
    let line = render(0, &cfg);
    assert_eq!(line, format!("|{}| 0", bar(0)));
}

#[test]
fn render_full_scale_fills_the_whole_bar() {
    let cfg = LevelMeterConfig { max_level: 1000, threshold: None };
    let line = render(1000, &cfg);
    assert_eq!(line, format!("|{}| 1000", bar(BAR_WIDTH)));
}

#[test]
fn render_never_exceeds_the_bar_width() {
    // A level far above full scale still fills exactly BAR_WIDTH cells.
    let cfg = LevelMeterConfig { max_level: 1000, threshold: None };
    let line = render(123_456_789, &cfg);
    assert_eq!(line, format!("|{}| 123456789", bar(BAR_WIDTH)));
    let huge = render(u64::MAX, &cfg);
    assert_eq!(huge, format!("|{}| {}", bar(BAR_WIDTH), u64::MAX));
}

#[test]
fn render_scales_proportionally_with_rounding() {
    let cfg = LevelMeterConfig { max_level: 1000, threshold: None };
    // 500/1000 of 78 cells is 39.
    assert_eq!(render(500, &cfg), format!("|{}| 500", bar(39)));
    // 10/1000 of 78 cells is 0.78, rounded half up to 1.
    assert_eq!(render(10, &cfg), format!("|{}| 10", bar(1)));
    // 6/1000 of 78 cells is 0.468, rounded down to 0.
    assert_eq!(render(6, &cfg), format!("|{}| 6", bar(0)));
}

#[test]
fn render_marks_the_threshold_position() {
    let cfg = LevelMeterConfig { max_level: 1000, threshold: Some(500) };
    // Threshold 500 sits at cell 39 (rounded 39.5 clamps by half-up to 39).
    let mut expected: Vec<char> = bar(10).chars().collect();
    expected[39] = 'O';
    let expected: String = expected.into_iter().collect();
    assert_eq!(render(128, &cfg), format!("|{}| 128", expected));
}

#[test]
fn render_clamps_the_marker_to_the_last_cell() {
    // A threshold at or above full scale is marked on the last cell.
    let cfg = LevelMeterConfig { max_level: 1000, threshold: Some(5000) };
    let mut expected: Vec<char> = bar(0).chars().collect();
    expected[BAR_WIDTH - 1] = 'O';
    let expected: String = expected.into_iter().collect();
    assert_eq!(render(0, &cfg), format!("|{}| 0", expected));
}

#[test]
fn decimal_label_formatting() {
    assert_eq!(u64_to_string(0), "0");
    assert_eq!(u64_to_string(7), "7");
    assert_eq!(u64_to_string(10), "10");
    assert_eq!(u64_to_string(1234567890), "1234567890");
    assert_eq!(u64_to_string(u64::MAX), format!("{}", u64::MAX));
}

fn device_list() -> Vec<String> {
    vec![
        "default".to_string(),
        "USB Microphone".to_string(),
        "Loopback".to_string(),
    ]
}

#[test]
fn unrecognized_device_name_falls_back_to_index_zero() {
    let name = "Not There".to_string();
    assert_eq!(get_device_id(&name, &device_list()), 0);
}

#[test]
fn device_name_at_position_p_resolves_to_p() {
    let devices = device_list();
    assert_eq!(get_device_id(&"default".to_string(), &devices), 0);
    assert_eq!(get_device_id(&"USB Microphone".to_string(), &devices), 1);
    assert_eq!(get_device_id(&"Loopback".to_string(), &devices), 2);
}

#[test]
fn duplicate_device_names_resolve_to_the_first() {
    let devices = vec!["a".to_string(), "b".to_string(), "b".to_string()];
    assert_eq!(get_device_id(&"b".to_string(), &devices), 1);
}

#[test]
fn empty_device_list_resolves_to_zero() {
    let devices: Vec<String> = Vec::new();
    assert_eq!(get_device_id(&"default".to_string(), &devices), 0);
}

#[test]
fn output_path_is_dir_slash_id_dot_wav() {
    assert_eq!(output_file_path("/tmp", "abc"), "/tmp/abc.wav");
}

#[test]
fn recording_path_has_a_36_character_identifier() {
    let p = recording_path("/tmp");
    assert!(p.starts_with("/tmp/"));
    assert!(p.ends_with(".wav"));
    assert_eq!(p.len(), "/tmp/".len() + 36 + ".wav".len());
    // The identifier is fresh: two paths differ.
    let q = recording_path("/tmp");
    assert_ne!(p, q);
}
