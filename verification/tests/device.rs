use toss::config::Config;
use toss::device::{alias_device, device_from_listing, find_device, resolve_alias_target, resolve_device_id, select_device, Device, DeviceState};
use toss::error::TossError;
use toss::interaction::{WorkflowAdapter, WorkflowEvent};

#[derive(Default)]
struct TestAdapter {
    warnings: Vec<String>,
    prompts: usize,
}

impl WorkflowAdapter for TestAdapter {
    fn emit(&mut self, event: WorkflowEvent) -> Result<(), TossError> {
        if let WorkflowEvent::Warning { message } = event {
            self.warnings.push(message);
        }
        Ok(())
    }

    fn select_index(&mut self, _prompt: &str, _items: &[String], _default: usize) -> Result<Option<usize>, TossError> {
        self.prompts += 1;
        Ok(None)
    }
}

fn device(identifier: &str, udid: &str) -> Device {
    Device {
        name: "Phone".into(),
        identifier: identifier.into(),
        udid: udid.into(),
        model: "iPhone".into(),
        os_version: "18.0".into(),
        state: DeviceState::Connected,
    }
}

fn config_with_alias(alias: &str, udid: &str) -> Config {
    let mut config = Config::default();
    config.devices.aliases.insert(alias.to_string(), udid.to_string());
    config
}

#[test]
fn resolves_alias_to_current_identifier_via_udid() {
    let config = config_with_alias("phone", "real-udid");
    let devices = vec![device("devicectl-id", "real-udid")];

    let resolved = resolve_device_id("phone", &config, &devices).unwrap();

    assert_eq!(resolved, "devicectl-id");
}

#[test]
fn rejects_stale_alias_when_device_is_missing() {
    let config = config_with_alias("phone", "missing-udid");

    let err = resolve_device_id("phone", &config, &[]).unwrap_err();

    assert!(err.message().contains("not currently available"));
}

#[test]
fn resolves_alias_target_to_udid_even_when_selected_by_index() {
    let devices = vec![device("devicectl-id", "real-udid")];
    let identifier = "devicectl-id";

    let aliased = resolve_alias_target(identifier, &devices, "1").unwrap();

    assert_eq!(aliased.udid, "real-udid");
}

#[test]
fn falls_back_when_default_device_alias_is_stale() {
    let mut config = config_with_alias("phone", "missing-udid");
    config.defaults.device = Some("phone".into());
    let devices = vec![device("devicectl-id", "real-udid")];

    let mut adapter = TestAdapter::default();
    let resolved = select_device(None, &config, &devices, &mut adapter).unwrap();

    assert_eq!(resolved, "devicectl-id");
    assert_eq!(adapter.warnings, vec!["default device 'phone' not found in current device list, ignoring".to_string()]);
    assert_eq!(adapter.prompts, 0);
}

#[test]
fn paired_devices_are_still_selectable() {
    let config = Config::default();
    let devices = vec![Device {
        name: "Phone".into(),
        identifier: "devicectl-id".into(),
        udid: "real-udid".into(),
        model: "iPhone".into(),
        os_version: "18.0".into(),
        state: DeviceState::Paired,
    }];

    let resolved = select_device(None, &config, &devices, &mut TestAdapter::default()).unwrap();

    assert_eq!(resolved, "devicectl-id");
}

#[test]
fn resolves_by_position_identifier_and_udid() {
    let config = Config::default();
    let devices = vec![device("id-1", "udid-1"), device("id-2", "udid-2")];
    assert_eq!(resolve_device_id("2", &config, &devices).unwrap(), "id-2");
    assert_eq!(resolve_device_id("udid-1", &config, &devices).unwrap(), "id-1");
    assert_eq!(resolve_device_id("id-2", &config, &devices).unwrap(), "id-2");
    let err = resolve_device_id("3", &config, &devices).unwrap_err();
    assert!(err.message().contains("out of range"));
    let err = resolve_device_id("nothing", &config, &devices).unwrap_err();
    assert!(matches!(err, TossError::Device(_)));
    assert_eq!(find_device("udid-2", &devices), Some(1));
    assert_eq!(find_device("zzz", &devices), None);
}

#[test]
fn selection_needs_a_choice_among_several_connected_devices() {
    let config = Config::default();
    let mut off = device("id-0", "udid-0");
    off.state = DeviceState::Disconnected;
    let devices = vec![off.clone(), device("id-1", "udid-1"), device("id-2", "udid-2")];
    let mut adapter = TestAdapter::default();
    let err = select_device(None, &config, &devices, &mut adapter).unwrap_err();
    assert!(err.message().contains("multiple"));
    assert_eq!(adapter.prompts, 1);
    let err = select_device(None, &config, &[off], &mut TestAdapter::default()).unwrap_err();
    assert!(matches!(err, TossError::Device(_)));
    let mut adapter = TestAdapter::default();
    assert_eq!(select_device(Some("id-2"), &config, &devices, &mut adapter).unwrap(), "id-2");
    assert_eq!(adapter.prompts, 0);
    assert!(adapter.warnings.is_empty());
}

#[test]
fn first_alias_becomes_the_default_device() {
    let mut config = Config::default();
    let devices = vec![device("id-1", "udid-1"), device("id-2", "udid-2")];
    let first = alias_device(&mut config, &devices, "1", "work").unwrap();
    assert!(first.is_default);
    assert_eq!(first.udid, "udid-1");
    assert_eq!(config.defaults.device.as_deref(), Some("work"));
    let second = alias_device(&mut config, &devices, "id-2", "home").unwrap();
    assert!(!second.is_default);
    assert_eq!(config.devices.aliases.get("home").map(|s| s.as_str()), Some("udid-2"));
    assert_eq!(resolve_device_id("home", &config, &devices).unwrap(), "id-2");
    assert!(alias_device(&mut config, &devices, "id-9", "x").is_err());
}

#[test]
fn device_state_labels() {
    assert_eq!(DeviceState::Connected.label(), "connected");
    assert_eq!(DeviceState::Paired.label(), "paired");
    assert_eq!(DeviceState::Disconnected.label(), "disconnected");
    assert_eq!(DeviceState::Unknown("busy".into()).label(), "busy");
}

#[test]
fn a_device_can_be_aliased_by_its_name() {
    let mut config = Config::default();
    let phone = Device {
        name: "Phone".into(),
        identifier: "devicectl-id".into(),
        udid: "real-udid".into(),
        model: "iPhone".into(),
        os_version: "18.0".into(),
        state: DeviceState::Connected,
    };
    let result = alias_device(&mut config, &[phone.clone()], "Phone", "phone").unwrap();
    assert_eq!(result.alias, "phone");
    assert_eq!(result.udid, "real-udid");
    assert_eq!(result.device_name, "Phone");
    assert!(result.is_default);
    assert_eq!(config.devices.aliases.get("phone").map(|s| s.as_str()), Some("real-udid"));
    let err = resolve_device_id("Phone", &Config::default(), &[phone.clone()]).unwrap_err();
    assert_eq!(err.message(), "device error: unknown device 'Phone' — not an alias, UDID, or valid index");
    let mut other = Config::default();
    let err = alias_device(&mut other, &[phone], "Tablet", "tablet").unwrap_err();
    assert_eq!(err.message(), "device error: unknown device 'Tablet' — not an alias, UDID, or valid index");
    assert!(other.devices.aliases.is_empty());
}

#[test]
fn a_listed_device_without_hardware_udid_is_known_by_its_identifier() {
    let d = device_from_listing("Phone".into(), "id-1".into(), String::new(), "18.0".into(), "iPhone17,1".into(), None, "connected".into());
    assert_eq!(d.udid, "id-1");
    assert_eq!(d.model, "iPhone17,1");
    assert_eq!(d.state, DeviceState::Connected);
    let d = device_from_listing("Phone".into(), "id-1".into(), "hw-1".into(), "18.0".into(), "iPhone17,1".into(), Some("iPhone 16".into()), "busy".into());
    assert_eq!(d.udid, "hw-1");
    assert_eq!(d.model, "iPhone 16");
    assert_eq!(d.state, DeviceState::Unknown("busy".into()));
}
