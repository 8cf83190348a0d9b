use calibright::{
    Calibration, CalibrightConfig, DeviceConfig, ErrorKind, UnresolvedCalibrightConfig,
    UnresolvedDeviceConfig, SCALE,
};

fn chars(s: &str) -> Vec<char> {
    s.chars().collect()
}

fn section() -> UnresolvedDeviceConfig {
    UnresolvedDeviceConfig::new()
}

#[test]
fn defaults_are_the_built_in_values() {
    let d = DeviceConfig::default();
    assert_eq!(d.root_scaling, 1_000);
    assert_eq!(d.ddcci_sleep_multiplier, 1_000);
    assert_eq!(d.ddcci_max_tries_write_read, 10);
    assert_eq!(d.calibration_low, 0);
    assert_eq!(d.calibration_high, SCALE);
}

#[test]
fn override_inherits_unset_fields_from_global() {
    // The global section sets only the sleep multiplier; the override sets
    // only root_scaling: the override inherits everything else from the
    // resolved global section, which itself inherits from the defaults.
    let global = UnresolvedDeviceConfig { ddcci_sleep_multiplier: Some(2_000), ..section() };
    let over = UnresolvedDeviceConfig { root_scaling: Some(500), ..section() };
    let unresolved = UnresolvedCalibrightConfig {
        global,
        overrides: vec![(chars("intel_backlight"), over)],
    };
    let resolved = unresolved.resolve(&DeviceConfig::default());

    let g = resolved.get_device_config(&chars("acpi_video0"));
    assert_eq!(g.ddcci_sleep_multiplier, 2_000);
    assert_eq!(g.root_scaling, 1_000);
    assert_eq!(g.ddcci_max_tries_write_read, 10);
    assert_eq!(g.calibration_low, 0);
    assert_eq!(g.calibration_high, SCALE);

    let o = resolved.get_device_config(&chars("intel_backlight"));
    assert_eq!(o.root_scaling, 500);
    assert_eq!(o.ddcci_sleep_multiplier, 2_000);
    assert_eq!(o.ddcci_max_tries_write_read, 10);
    assert_eq!(o.calibration_low, 0);
    assert_eq!(o.calibration_high, SCALE);
}

#[test]
fn empty_input_resolves_to_the_given_defaults() {
    let defaults = DeviceConfig { root_scaling: 3_000, ..DeviceConfig::default() };
    let resolved = UnresolvedCalibrightConfig::new().resolve(&defaults);
    assert_eq!(resolved.get_device_config(&chars("any")), defaults);
}

#[test]
fn validation_normalizes_calibration_from_percent() {
    // 20% to 80%, given in thousandths of a percent, lands on [0.2, 0.8] of
    // the unit scale.
    let u = UnresolvedDeviceConfig {
        calibration: Some(Calibration { low: 20_000, high: 80_000 }),
        ..section()
    };
    let v = u.validated().unwrap();
    assert_eq!(v.calibration, Some(Calibration { low: 200_000, high: 800_000 }));
}

#[test]
fn validation_rejects_inverted_calibration_as_invalid_range() {
    let u = UnresolvedDeviceConfig {
        calibration: Some(Calibration { low: 80_000, high: 20_000 }),
        ..section()
    };
    assert_eq!(u.validated().unwrap_err().kind, ErrorKind::InvalidRange);
}

#[test]
fn validation_rejects_calibration_beyond_full_percent() {
    let u = UnresolvedDeviceConfig {
        calibration: Some(Calibration { low: 0, high: 100_001 }),
        ..section()
    };
    assert_eq!(u.validated().unwrap_err().kind, ErrorKind::Config);
}

#[test]
fn validation_bounds_root_scaling() {
    let low = UnresolvedDeviceConfig { root_scaling: Some(99), ..section() };
    assert_eq!(low.validated().unwrap_err().kind, ErrorKind::Config);
    let high = UnresolvedDeviceConfig { root_scaling: Some(10_001), ..section() };
    assert_eq!(high.validated().unwrap_err().kind, ErrorKind::Config);
    let ok = UnresolvedDeviceConfig { root_scaling: Some(10_000), ..section() };
    assert!(ok.validated().is_ok());
    let ok = UnresolvedDeviceConfig { root_scaling: Some(100), ..section() };
    assert!(ok.validated().is_ok());
}

#[test]
fn validation_rejects_a_zero_retry_budget() {
    let u = UnresolvedDeviceConfig { ddcci_max_tries_write_read: Some(0), ..section() };
    assert_eq!(u.validated().unwrap_err().kind, ErrorKind::Config);
}

#[test]
fn lookup_prefers_the_named_override() {
    let over_a = UnresolvedDeviceConfig { root_scaling: Some(2_000), ..section() };
    let over_b = UnresolvedDeviceConfig { root_scaling: Some(4_000), ..section() };
    let unresolved = UnresolvedCalibrightConfig {
        global: section(),
        overrides: vec![(chars("a"), over_a), (chars("b"), over_b)],
    };
    let resolved = unresolved.resolve(&DeviceConfig::default());
    assert_eq!(resolved.get_device_config(&chars("a")).root_scaling, 2_000);
    assert_eq!(resolved.get_device_config(&chars("b")).root_scaling, 4_000);
    assert_eq!(resolved.get_device_config(&chars("c")).root_scaling, 1_000);
}

#[test]
fn config_constructors_agree() {
    let c = CalibrightConfig::new();
    assert_eq!(c.get_device_config(&chars("x")), DeviceConfig::default());
    let defaults = DeviceConfig { ddcci_max_tries_write_read: 3, ..DeviceConfig::default() };
    let c = CalibrightConfig::new_with_defaults(&defaults);
    assert_eq!(c.get_device_config(&chars("x")), defaults);
}
