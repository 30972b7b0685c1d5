//! Behavior of the status-update helpers and the small root items.

use cerberus::status::{compose_log_message, level_name, DeviceRegistry, StatusEntry, StatusStore};
use cerberus::{
    config_path, load_configruation_notification_targets, DeviceId, MonitorError, StatusLevel,
};

#[test]
fn levels_route_to_the_right_notification_target() {
    assert!(!StatusLevel::Info.routes_to_alarm());
    assert!(!StatusLevel::Status.routes_to_alarm());
    assert!(StatusLevel::Warning.routes_to_alarm());
    assert!(StatusLevel::Alarm.routes_to_alarm());
}

#[test]
fn registry_returns_the_last_registered_name() {
    let mut registry = DeviceRegistry::new();
    assert_eq!(registry.device_name(DeviceId(1)), "Unknwon Device");

    registry.register_device(DeviceId(1), "Log".to_string());
    registry.register_device(DeviceId(2), "Device".to_string());
    assert_eq!(registry.device_name(DeviceId(1)), "Log");
    assert_eq!(registry.device_name(DeviceId(2)), "Device");
    assert_eq!(registry.device_name(DeviceId(3)), "Unknwon Device");

    registry.register_device(DeviceId(1), "Panel".to_string());
    assert_eq!(registry.device_name(DeviceId(1)), "Panel");

    // Every registration is kept, in order, duplicates included.
    let names: Vec<String> = registry.registrations().into_iter().map(|(_, n)| n).collect();
    assert_eq!(names, vec!["Log", "Device", "Panel"]);
}

#[test]
fn log_lines_carry_device_name_and_level() {
    assert_eq!(level_name(StatusLevel::Warning), "Warning");
    let line = compose_log_message("Log", StatusLevel::Info, "Cerberus monitor started.");
    assert_eq!(line, "[Log, Info] Cerberus monitor started.");
}

#[test]
fn store_keeps_per_device_histories_apart() {
    let mut store = StatusStore::new();
    let entry = |message: &str, level: StatusLevel| StatusEntry {
        message: message.to_string(),
        timestamp: 0,
        level,
    };

    store.record_status(DeviceId(1), entry("Ready", StatusLevel::Status));
    store.record_status(DeviceId(2), entry("started", StatusLevel::Info));
    store.record_status(DeviceId(1), entry("INTRUSION", StatusLevel::Alarm));

    assert_eq!(store.device_ids(), vec![DeviceId(1), DeviceId(2)]);

    let first = store.entries_snapshot(DeviceId(1));
    assert_eq!(first.len(), 2);
    assert_eq!(first[0].0, "Ready");
    assert_eq!(first[0].2, StatusLevel::Status);
    assert_eq!(first[1].0, "INTRUSION");
    assert_eq!(first[1].2, StatusLevel::Alarm);

    let second = store.entries_snapshot(DeviceId(2));
    assert_eq!(second.len(), 1);
    assert_eq!(second[0].0, "started");

    assert!(store.entries_snapshot(DeviceId(3)).is_empty());
}

#[test]
fn configuration_file_name_is_fixed() {
    assert_eq!(config_path(), "cerberus.json");
}

#[test]
fn notification_target_recovery_is_not_implemented() {
    let r = load_configruation_notification_targets();
    assert_eq!(r.err(), Some(MonitorError::NotImplemented));
    assert_eq!(
        MonitorError::NotImplemented.message(),
        "not implemented"
    );
    assert_eq!(
        MonitorError::EmptyStateList.message(),
        "dummy device must have at least one state"
    );
    assert_eq!(
        MonitorError::TaskAlreadyFinished.message(),
        "task already finished"
    );
}
