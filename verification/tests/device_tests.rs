use calibright::{
    next_write_step, Device, DeviceConfig, ErrorKind, ReadRetry, WriteChannel, WriteStep, SCALE,
};

fn chars(s: &str) -> Vec<char> {
    s.chars().collect()
}

fn path(s: &str) -> String {
    s.to_string()
}

fn make_device(name: &str, config: DeviceConfig, raw: u32, max: u32) -> Device {
    Device::new(&chars(name), config, raw, max, 0).unwrap()
}

#[test]
fn construction_resolves_paths() {
    let d = make_device("intel_backlight", DeviceConfig::default(), 10, 100);
    let read: String = d.read_brightness_file.iter().collect();
    assert_eq!(read, path("/sys/class/backlight/intel_backlight/actual_brightness"));
    let write: String = d.write_brightness_file.iter().collect();
    assert_eq!(write, path("/sys/class/backlight/intel_backlight/brightness"));
    let max_file: String = d.max_brightness_file().iter().collect();
    assert_eq!(max_file, path("/sys/class/backlight/intel_backlight/max_brightness"));
}

#[test]
fn amdgpu_reads_the_write_file() {
    let d = make_device("amdgpu_bl0", DeviceConfig::default(), 10, 100);
    let read: String = d.read_brightness_file.iter().collect();
    assert_eq!(read, path("/sys/class/backlight/amdgpu_bl0/brightness"));
}

#[test]
fn construction_rejects_zero_maximum() {
    let e = Device::new(&chars("intel_backlight"), DeviceConfig::default(), 0, 0, 0).unwrap_err();
    assert_eq!(e.kind, ErrorKind::Io);
}

#[test]
fn set_never_writes_zero() {
    // Whatever the requested percentage, the raw value written is at least 1.
    for max in [1u32, 7, 100, 255, 65_535] {
        let mut d = make_device("intel_backlight", DeviceConfig::default(), 1, max);
        for value in [0u64, 1, 2_000, 500_000, SCALE] {
            let rel = d.relative_brightness(value);
            let raw = d.set_brightness(rel);
            assert!(raw >= 1, "raw 0 written for value {value} with max {max}");
        }
    }
}

#[test]
fn set_then_get_round_trips_for_unit_scaling() {
    // rootScaling 1.0 and calibration [0, 1]: what is read back is the
    // requested value, within one raw quantization step (1/maxRaw).
    let mut d = make_device("intel_backlight", DeviceConfig::default(), 1, 100);
    let rel = d.relative_brightness(500_000);
    assert_eq!(rel, 500_000);
    let raw = d.set_brightness(rel);
    assert_eq!(raw, 50);
    let ratio = d.brightness_ratio(raw);
    let got = d.get_brightness(ratio);
    assert!((490_000..=510_000).contains(&got), "got {got}");
}

#[test]
fn read_pipeline_scales_raw_to_ratio() {
    let mut d = make_device("intel_backlight", DeviceConfig::default(), 1, 200);
    assert_eq!(d.brightness_ratio(50), 250_000);
    assert_eq!(d.raw_brightness, 50);
    // A reading above the maximum is clamped to full scale.
    assert_eq!(d.brightness_ratio(400), SCALE);
}

#[test]
fn retry_policy_respects_budget_and_settle_time() {
    let config = DeviceConfig { ddcci_sleep_multiplier: 2_500, ..DeviceConfig::default() };
    let d = make_device("intel_backlight", config, 1, 100);
    // 40 ms * 2.5 = 100 ms between attempts.
    match d.next_read_attempt(1) {
        ReadRetry::Retry { sleep_ms } => assert_eq!(sleep_ms, 100),
        ReadRetry::GiveUp => panic!("budget not exhausted after one failure"),
    }
    // The default budget is ten attempts in all.
    assert!(matches!(d.next_read_attempt(9), ReadRetry::Retry { .. }));
    assert!(matches!(d.next_read_attempt(10), ReadRetry::GiveUp));
    let e = d.protocol_unreachable_error();
    assert_eq!(e.kind, ErrorKind::Io);
    assert_eq!(
        e.message_text(),
        "Failed to read brightness file, check your ddcci settings"
    );
}

#[test]
fn retry_sleep_rounds_to_nearest_millisecond() {
    let config = DeviceConfig { ddcci_sleep_multiplier: 1_010, ..DeviceConfig::default() };
    let d = make_device("intel_backlight", config, 1, 100);
    // 40 * 1.01 = 40.4 rounds to 40.
    match d.next_read_attempt(1) {
        ReadRetry::Retry { sleep_ms } => assert_eq!(sleep_ms, 40),
        ReadRetry::GiveUp => panic!("budget not exhausted"),
    }
}

#[test]
fn write_protocol_falls_back_then_fails() {
    assert_eq!(next_write_step(WriteChannel::Privileged, true), WriteStep::Done);
    assert_eq!(next_write_step(WriteChannel::Privileged, false), WriteStep::TryFallback);
    assert_eq!(next_write_step(WriteChannel::Sysfs, true), WriteStep::Done);
    assert_eq!(next_write_step(WriteChannel::Sysfs, false), WriteStep::Failed);
}

#[test]
fn last_set_ago_follows_recorded_writes() {
    let mut d = Device::new(&chars("intel_backlight"), DeviceConfig::default(), 1, 100, 1_000)
        .unwrap();
    assert_eq!(d.get_last_set_ago(1_500), 500);
    d.record_set(4_000);
    assert_eq!(d.get_last_set_ago(4_250), 250);
    // A clock that moved backwards reads as no time having passed.
    assert_eq!(d.get_last_set_ago(3_000), 0);
}

#[test]
fn calibrated_set_uses_the_calibration_range() {
    let config = DeviceConfig {
        calibration_low: 200_000,
        calibration_high: 800_000,
        ..DeviceConfig::default()
    };
    let mut d = make_device("intel_backlight", config, 1, 100);
    // Requesting full brightness writes the calibrated upper bound.
    let rel = d.relative_brightness(SCALE);
    assert_eq!(rel, 800_000);
    assert_eq!(d.set_brightness(rel), 80);
    // Requesting zero writes the calibrated lower bound.
    let rel = d.relative_brightness(0);
    assert_eq!(rel, 200_000);
    assert_eq!(d.set_brightness(rel), 20);
}
