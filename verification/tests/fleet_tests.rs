use calibright::{
    select_device_names, Calibright, CalibrightBuilder, Device, DeviceConfig, Error, ErrorKind,
    SCALE,
};

fn chars(s: &str) -> Vec<char> {
    s.chars().collect()
}

fn device(name: &str) -> Device {
    Device::new(&chars(name), DeviceConfig::default(), 1, 100, 0).unwrap()
}

fn fleet_of(names: &[&str]) -> Calibright {
    let construction: Vec<Result<Device, Error>> =
        names.iter().map(|n| Ok(device(n))).collect();
    Calibright::new(&".".to_string(), calibright::CalibrightConfig::new(), 2_000, construction)
        .unwrap()
}

#[test]
fn one_failing_device_does_not_hide_the_others() {
    // A fleet of three devices, one of which fails to read: the result is
    // the mean of the two readings that succeeded.
    let fleet = fleet_of(&["a", "b", "c"]);
    let readings = vec![
        Ok(600_000),
        Err(Error::of_kind(ErrorKind::Io)),
        Ok(200_000),
    ];
    assert_eq!(fleet.get_brightness(readings).unwrap(), 400_000);
}

#[test]
fn all_devices_failing_reports_no_devices() {
    let fleet = fleet_of(&["a", "b", "c"]);
    let readings = vec![
        Err(Error::of_kind(ErrorKind::Io)),
        Err(Error::of_kind(ErrorKind::Io)),
        Err(Error::of_kind(ErrorKind::Io)),
    ];
    let e = fleet.get_brightness(readings).unwrap_err();
    assert_eq!(e.kind, ErrorKind::NoDevices);
}

#[test]
fn empty_fleet_reports_no_devices() {
    let fleet = fleet_of(&[]);
    let e = fleet.get_brightness(Vec::new()).unwrap_err();
    assert_eq!(e.kind, ErrorKind::NoDevices);
}

#[test]
fn set_tolerates_partial_failure() {
    let fleet = fleet_of(&["a", "b"]);
    assert!(fleet
        .set_brightness(vec![Err(Error::of_kind(ErrorKind::Io)), Ok(())])
        .is_ok());
    let e = fleet
        .set_brightness(vec![
            Err(Error::of_kind(ErrorKind::Io)),
            Err(Error::of_kind(ErrorKind::Io)),
        ])
        .unwrap_err();
    assert_eq!(e.kind, ErrorKind::NoDevices);
}

#[test]
fn build_drops_failed_constructions() {
    let construction = vec![
        Ok(device("a")),
        Err(Error::of_kind(ErrorKind::Io)),
        Ok(device("c")),
    ];
    let fleet = CalibrightBuilder::new().build(construction).unwrap();
    assert_eq!(fleet.device_count(), 2);
    assert!(fleet.find_device(&chars("a")).is_some());
    assert!(fleet.find_device(&chars("b")).is_none());
    assert!(fleet.find_device(&chars("c")).is_some());
}

#[test]
fn build_fails_only_when_every_construction_failed() {
    let construction: Vec<Result<Device, Error>> = vec![
        Err(Error::of_kind(ErrorKind::Io)),
        Err(Error::of_kind(ErrorKind::Io)),
    ];
    let e = CalibrightBuilder::new().build(construction).unwrap_err();
    assert_eq!(e.kind, ErrorKind::NoDevices);
}

#[test]
fn add_and_remove_are_idempotent() {
    let mut fleet = fleet_of(&["a"]);
    fleet.add_device(device("b"));
    assert_eq!(fleet.device_count(), 2);
    // Adding a known name changes nothing.
    fleet.add_device(device("b"));
    assert_eq!(fleet.device_count(), 2);
    // Removing hands the device back, for unwatching.
    let removed = fleet.remove_device(&chars("b")).unwrap();
    let read: String = removed.read_brightness_file.iter().collect();
    assert_eq!(read, "/sys/class/backlight/b/actual_brightness");
    assert_eq!(fleet.device_count(), 1);
    // Removing an absent name changes nothing.
    assert!(fleet.remove_device(&chars("b")).is_none());
    assert_eq!(fleet.device_count(), 1);
}

#[test]
fn selection_filters_by_pattern() {
    let entries = vec![chars("intel_backlight"), chars("acpi_video0"), chars("amdgpu_bl0")];
    let all = select_device_names(&".".to_string(), &entries).unwrap();
    assert_eq!(all.len(), 3);
    let intel = select_device_names(&"intel.*".to_string(), &entries).unwrap();
    assert_eq!(intel.len(), 1);
    let name: String = intel[0].iter().collect();
    assert_eq!(name, "intel_backlight");
}

#[test]
fn selection_rejects_a_bad_pattern() {
    let entries = vec![chars("intel_backlight")];
    let e = select_device_names(&"(".to_string(), &entries).unwrap_err();
    assert_eq!(e.kind, ErrorKind::Config);
}

#[test]
fn selection_reports_not_found_when_nothing_matches() {
    let entries = vec![chars("intel_backlight")];
    let e = select_device_names(&"nvidia.*".to_string(), &entries).unwrap_err();
    assert_eq!(e.kind, ErrorKind::NotFound);
    let e = select_device_names(&".".to_string(), &Vec::new()).unwrap_err();
    assert_eq!(e.kind, ErrorKind::NotFound);
}

#[test]
fn builder_carries_its_settings() {
    let b = CalibrightBuilder::new();
    assert_eq!(b.device_regex, ".");
    assert!(b.config.is_none());
    assert_eq!(b.poll_interval_ms, 2_000);
    let b = b.with_device_regex("intel.*").with_poll_interval(5_000);
    assert_eq!(b.device_regex, "intel.*");
    assert_eq!(b.poll_interval_ms, 5_000);
}

#[test]
fn mean_is_exact_for_uneven_readings() {
    let fleet = fleet_of(&["a", "b", "c"]);
    // (1 + 2 + 4) / 3 rounds down to 2.
    let readings = vec![Ok(1), Ok(2), Ok(4)];
    assert_eq!(fleet.get_brightness(readings).unwrap(), 2);
    let readings = vec![Ok(SCALE), Ok(SCALE), Ok(SCALE)];
    assert_eq!(fleet.get_brightness(readings).unwrap(), SCALE);
}
