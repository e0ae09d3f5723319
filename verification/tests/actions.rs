use toss::actions::{
    record_project_tossed, resolve_prebuilt, resolve_project_name, set_last_tossed, should_retry_devicectl_identifier,
    should_retry_generic_ios_build,
};
use toss::config::{Config, ProjectConfig, ProjectKind};
use toss::error::TossError;
use toss::interaction::{WorkflowAdapter, WorkflowEvent};

#[test]
fn retries_generic_build_for_missing_destination_errors() {
    let err = TossError::Xcrun(
        "xcodebuild failed:\nUnable to find a destination matching the provided destination specifier".into(),
    );

    assert!(should_retry_generic_ios_build(&err));
}

#[test]
fn does_not_retry_generic_build_for_other_errors() {
    let err = TossError::Xcrun("xcodebuild failed:\nCode signing failed".into());

    assert!(!should_retry_generic_ios_build(&err));
}

#[test]
fn retries_devicectl_identifier_for_missing_coredevice_identifier() {
    let err = TossError::Xcrun(
        "install failed:\nERROR: CoreDeviceService was unable to locate a device matching the requested device identifier. (com.apple.dt.CoreDeviceError error 1011)".into(),
    );

    assert!(should_retry_devicectl_identifier(&err));
}

#[test]
fn does_not_retry_devicectl_identifier_for_other_errors() {
    let err = TossError::Xcrun("install failed:\npermission denied".into());

    assert!(!should_retry_devicectl_identifier(&err));
}

#[test]
fn retries_are_only_for_xcrun_errors() {
    let err = TossError::Device("Unable to find a destination matching the provided destination specifier".into());
    assert!(!should_retry_generic_ios_build(&err));
    let err = TossError::Project("com.apple.dt.CoreDeviceError error 1011".into());
    assert!(!should_retry_devicectl_identifier(&err));
}

struct Recorder {
    events: Vec<WorkflowEvent>,
    answer: Option<usize>,
}

impl WorkflowAdapter for Recorder {
    fn emit(&mut self, event: WorkflowEvent) -> Result<(), TossError> {
        self.events.push(event);
        Ok(())
    }

    fn select_index(&mut self, _prompt: &str, _items: &[String], _default: usize) -> Result<Option<usize>, TossError> {
        Ok(self.answer)
    }
}

fn project(path: Option<&str>) -> ProjectConfig {
    ProjectConfig {
        kind: ProjectKind::Xcode,
        path: path.map(|p| p.to_string()),
        build_dir: "/tmp/build".into(),
        bundle_id: None,
        app_name: None,
        ipa_path: None,
        original_name: None,
        last_tossed_at: None,
    }
}

#[test]
fn resolves_named_default_and_only_projects() {
    let mut config = Config::default();
    let mut adapter = Recorder { events: Vec::new(), answer: None };
    let err = resolve_project_name(&config, None, &mut adapter).unwrap_err();
    assert_eq!(err.message(), "project error: no projects registered — use `toss projects add` to register one");

    config.projects.insert("one".into(), project(None));
    assert_eq!(resolve_project_name(&config, None, &mut adapter).unwrap(), "one");
    assert!(resolve_project_name(&config, Some("two"), &mut adapter).unwrap_err().message().contains("unknown project 'two'"));

    config.projects.insert("two".into(), project(None));
    let err = resolve_project_name(&config, None, &mut adapter).unwrap_err();
    assert!(err.message().contains("multiple projects registered"));
    adapter.answer = Some(1);
    assert_eq!(resolve_project_name(&config, None, &mut adapter).unwrap(), "two");

    config.defaults.project = Some("gone".into());
    adapter.answer = Some(0);
    assert_eq!(resolve_project_name(&config, None, &mut adapter).unwrap(), "one");
    assert!(matches!(&adapter.events[0], WorkflowEvent::Warning { message } if message.contains("default project 'gone' not found")));

    config.defaults.project = Some("two".into());
    assert_eq!(resolve_project_name(&config, None, &mut adapter).unwrap(), "two");
}

#[test]
fn prebuilt_defaults_to_projects_without_source() {
    let mut config = Config::default();
    config.projects.insert("bin".into(), project(None));
    config.projects.insert("src".into(), project(Some("/src")));
    assert!(resolve_prebuilt(&config, "bin", None));
    assert!(!resolve_prebuilt(&config, "src", None));
    assert!(resolve_prebuilt(&config, "src", Some(true)));
    assert!(!resolve_prebuilt(&config, "bin", Some(false)));
    assert!(resolve_prebuilt(&config, "missing", None));
}

#[test]
fn records_the_last_deployment_time() {
    let mut config = Config::default();
    config.projects.insert("demo".into(), project(None));
    set_last_tossed(&mut config, "demo", "2026-03-25T12:34:56Z".to_string()).unwrap();
    assert_eq!(config.projects.get("demo").unwrap().last_tossed_at.as_deref(), Some("2026-03-25T12:34:56Z"));
    assert!(set_last_tossed(&mut config, "other", "x".to_string()).is_err());
    record_project_tossed(&mut config, "demo").unwrap();
    let stamp = config.projects.get("demo").unwrap().last_tossed_at.clone().unwrap();
    assert!(stamp.ends_with('Z'));
    assert_ne!(stamp, "2026-03-25T12:34:56Z");
}

#[test]
fn an_unknown_named_project_asks_and_tells_nothing() {
    let mut config = Config::default();
    config.projects.insert("demo".into(), project(None));
    config.defaults.project = Some("demo".into());
    let mut adapter = Recorder { events: Vec::new(), answer: Some(0) };
    let err = resolve_project_name(&config, Some("other"), &mut adapter).unwrap_err();
    assert_eq!(err.message(), "project error: unknown project 'other' — register it with `toss projects add`");
    assert!(adapter.events.is_empty());
}
