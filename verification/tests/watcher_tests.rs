use calibright::{
    Calibright, CalibrightConfig, Device, DeviceConfig, Error, WatchAction, WatchEvent,
    WatchEventKind,
};

fn chars(s: &str) -> Vec<char> {
    s.chars().collect()
}

fn device_at(name: &str, constructed_ms: u64) -> Device {
    Device::new(&chars(name), DeviceConfig::default(), 1, 100, constructed_ms).unwrap()
}

fn fleet_with(devices: Vec<Device>, pattern: &str, poll_interval_ms: u64) -> Calibright {
    let construction: Vec<Result<Device, Error>> = devices.into_iter().map(Ok).collect();
    Calibright::new(
        &pattern.to_string(),
        CalibrightConfig::new(),
        poll_interval_ms,
        construction,
    )
    .unwrap()
}

fn event(kind: WatchEventKind, paths: &[&str], timestamp_ms: u64) -> WatchEvent {
    WatchEvent { kind, paths: paths.iter().map(|p| chars(p)).collect(), timestamp_ms }
}

#[test]
fn own_write_echo_is_suppressed_within_poll_interval() {
    // The device was written at t=1000 and the poll interval is 2000 ms: a
    // modification seen at t=2500 (1500 ms later) is the echo of that write.
    let fleet = fleet_with(vec![device_at("intel_backlight", 1_000)], ".", 2_000);
    let ev = event(
        WatchEventKind::Modify,
        &["/sys/class/backlight/intel_backlight/actual_brightness"],
        2_500,
    );
    assert!(fleet.plan_event(&ev).is_empty());
}

#[test]
fn external_change_is_surfaced_after_the_window() {
    // The same modification seen 2500 ms after the write is external.
    let fleet = fleet_with(vec![device_at("intel_backlight", 1_000)], ".", 2_000);
    let ev = event(
        WatchEventKind::Modify,
        &["/sys/class/backlight/intel_backlight/actual_brightness"],
        3_500,
    );
    let actions = fleet.plan_event(&ev);
    assert_eq!(actions.len(), 1);
    assert!(matches!(actions[0], WatchAction::ExternalChange));
}

#[test]
fn modification_of_unknown_device_is_ignored() {
    let fleet = fleet_with(vec![device_at("intel_backlight", 0)], ".", 2_000);
    let ev = event(
        WatchEventKind::Modify,
        &["/sys/class/backlight/acpi_video0/actual_brightness"],
        10_000,
    );
    assert!(fleet.plan_event(&ev).is_empty());
}

#[test]
fn modification_of_other_files_is_ignored() {
    let fleet = fleet_with(vec![device_at("intel_backlight", 0)], ".", 2_000);
    let ev = event(
        WatchEventKind::Modify,
        &["/sys/class/backlight/intel_backlight/max_brightness"],
        10_000,
    );
    assert!(fleet.plan_event(&ev).is_empty());
}

#[test]
fn appearance_of_a_matching_device_asks_for_addition() {
    let fleet = fleet_with(vec![device_at("intel_backlight", 0)], ".", 2_000);
    let ev = event(WatchEventKind::Create, &["/sys/class/backlight/acpi_video0"], 0);
    let actions = fleet.plan_event(&ev);
    assert_eq!(actions.len(), 1);
    match &actions[0] {
        WatchAction::AddDevice { device_name } => {
            let name: String = device_name.iter().collect();
            assert_eq!(name, "acpi_video0");
        }
        other => panic!("unexpected action {other:?}"),
    }
}

#[test]
fn appearance_of_a_known_device_is_ignored() {
    let fleet = fleet_with(vec![device_at("intel_backlight", 0)], ".", 2_000);
    let ev = event(WatchEventKind::Create, &["/sys/class/backlight/intel_backlight"], 0);
    assert!(fleet.plan_event(&ev).is_empty());
}

#[test]
fn appearance_of_a_non_matching_device_is_ignored() {
    let fleet = fleet_with(vec![device_at("intel_backlight", 0)], "intel.*", 2_000);
    let ev = event(WatchEventKind::Create, &["/sys/class/backlight/acpi_video0"], 0);
    assert!(fleet.plan_event(&ev).is_empty());
}

#[test]
fn appearance_outside_the_devices_directory_is_ignored() {
    let fleet = fleet_with(vec![], ".", 2_000);
    let ev = event(WatchEventKind::Create, &["/sys/class/leds/input0", "/tmp/acpi_video0"], 0);
    assert!(fleet.plan_event(&ev).is_empty());
}

#[test]
fn disappearance_of_a_known_device_asks_for_removal() {
    let fleet = fleet_with(vec![device_at("intel_backlight", 0)], ".", 2_000);
    let ev = event(WatchEventKind::Remove, &["/sys/class/backlight/intel_backlight"], 0);
    let actions = fleet.plan_event(&ev);
    assert_eq!(actions.len(), 1);
    match &actions[0] {
        WatchAction::RemoveDevice { device_name } => {
            let name: String = device_name.iter().collect();
            assert_eq!(name, "intel_backlight");
        }
        other => panic!("unexpected action {other:?}"),
    }
}

#[test]
fn disappearance_of_an_unknown_device_is_ignored() {
    let fleet = fleet_with(vec![device_at("intel_backlight", 0)], ".", 2_000);
    let ev = event(WatchEventKind::Remove, &["/sys/class/backlight/acpi_video0"], 0);
    assert!(fleet.plan_event(&ev).is_empty());
}

#[test]
fn one_event_yields_actions_for_each_path_in_order() {
    let fleet = fleet_with(vec![device_at("intel_backlight", 0)], ".", 2_000);
    let ev = event(
        WatchEventKind::Create,
        &["/sys/class/backlight/acpi_video0", "/sys/class/backlight/nv_backlight"],
        0,
    );
    let actions = fleet.plan_event(&ev);
    assert_eq!(actions.len(), 2);
    let names: Vec<String> = actions
        .iter()
        .map(|a| match a {
            WatchAction::AddDevice { device_name } => device_name.iter().collect(),
            other => panic!("unexpected action {other:?}"),
        })
        .collect();
    assert_eq!(names, ["acpi_video0", "nv_backlight"]);
}
