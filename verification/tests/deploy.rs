use toss::config::{Config, ProjectConfig, ProjectKind};
use toss::deploy::{install, install_app_workflow, launch, run, DeployAction, DeployEvent, DeployOutcome};
use toss::device::{Device, DeviceState};
use toss::error::TossError;
use toss::interaction::{WorkflowAdapter, WorkflowEvent};
use toss::sign_session::SignResult;

#[derive(Default)]
struct Recorder {
    events: Vec<WorkflowEvent>,
}

impl WorkflowAdapter for Recorder {
    fn emit(&mut self, event: WorkflowEvent) -> Result<(), TossError> {
        self.events.push(event);
        Ok(())
    }

    fn select_index(&mut self, _prompt: &str, _items: &[String], _default: usize) -> Result<Option<usize>, TossError> {
        Ok(None)
    }
}

fn config_with(path: Option<&str>, app_name: Option<&str>, bundle_id: Option<&str>) -> Config {
    let mut config = Config::default();
    config.projects.insert(
        "demo".into(),
        ProjectConfig {
            kind: ProjectKind::Xcode,
            path: path.map(|s| s.to_string()),
            build_dir: "/build".into(),
            bundle_id: bundle_id.map(|s| s.to_string()),
            app_name: app_name.map(|s| s.to_string()),
            ipa_path: None,
            original_name: None,
            last_tossed_at: None,
        },
    );
    config
}

fn phone() -> Device {
    Device {
        name: "Phone".into(),
        identifier: "dev-id".into(),
        udid: "udid-1".into(),
        model: "iPhone".into(),
        os_version: "18.0".into(),
        state: DeviceState::Connected,
    }
}

#[test]
fn launch_uses_the_recorded_bundle_identifier() {
    let mut config = config_with(None, Some("Demo.app"), Some("com.demo"));
    let mut adapter = Recorder::default();
    let mut d = launch(None, None);
    assert!(matches!(d.advance(&mut config, DeployEvent::Begin, &mut adapter).unwrap(), DeployAction::ListDevices));
    match d.advance(&mut config, DeployEvent::Devices(vec![phone()]), &mut adapter).unwrap() {
        DeployAction::Launch { device, bundle_id } => {
            assert_eq!(device, "dev-id");
            assert_eq!(bundle_id, "com.demo");
        }
        other => panic!("unexpected {:?}", other),
    }
    match d.advance(&mut config, DeployEvent::CommandDone(Ok(())), &mut adapter).unwrap() {
        DeployAction::Finished(DeployOutcome::Launched(r)) => {
            assert_eq!(r.project_name, "demo");
            assert_eq!(r.device_name, "Phone");
            assert_eq!(r.bundle_id, "com.demo");
        }
        other => panic!("unexpected {:?}", other),
    }
    assert!(matches!(adapter.events.last(), Some(WorkflowEvent::Launching { .. })));
    assert!(config.projects.get("demo").unwrap().last_tossed_at.is_none());
}

#[test]
fn install_retries_with_udid_and_records_the_deployment() {
    let mut config = config_with(None, None, None);
    let mut adapter = Recorder::default();
    let mut d = install(Some("demo"), Some("1"), None, false);
    d.advance(&mut config, DeployEvent::Begin, &mut adapter).unwrap();
    match d.advance(&mut config, DeployEvent::Devices(vec![phone()]), &mut adapter).unwrap() {
        DeployAction::ReadDir { dir } => assert_eq!(dir, "/build"),
        other => panic!("unexpected {:?}", other),
    }
    let entries = vec!["notes.txt".to_string(), "Demo.app".to_string()];
    match d.advance(&mut config, DeployEvent::DirEntries(entries), &mut adapter).unwrap() {
        DeployAction::ExtractBundleId { app_path } => assert_eq!(app_path, "/build/Demo.app"),
        other => panic!("unexpected {:?}", other),
    }
    match d.advance(&mut config, DeployEvent::BundleId("com.demo".into()), &mut adapter).unwrap() {
        DeployAction::Install { device, app_path } => {
            assert_eq!(device, "dev-id");
            assert_eq!(app_path, "/build/Demo.app");
        }
        other => panic!("unexpected {:?}", other),
    }
    let locate = TossError::Xcrun("ERROR: (com.apple.dt.CoreDeviceError error 1011)".into());
    match d.advance(&mut config, DeployEvent::CommandDone(Err(locate)), &mut adapter).unwrap() {
        DeployAction::Install { device, .. } => assert_eq!(device, "udid-1"),
        other => panic!("unexpected {:?}", other),
    }
    assert!(matches!(&adapter.events[0], WorkflowEvent::Warning { message } if message.contains("retrying install with hardware UDID")));
    assert!(matches!(d.advance(&mut config, DeployEvent::CommandDone(Ok(())), &mut adapter).unwrap(), DeployAction::SaveConfig));
    assert_eq!(adapter.events.len(), 2);
    assert!(matches!(&adapter.events[1], WorkflowEvent::Installing { app_path, device_name }
        if app_path == "/build/Demo.app" && device_name == "Phone"));
    assert!(config.projects.get("demo").unwrap().last_tossed_at.is_some());
    match d.advance(&mut config, DeployEvent::Saved, &mut adapter).unwrap() {
        DeployAction::Finished(DeployOutcome::Installed(r)) => {
            assert_eq!(r.app_path, "/build/Demo.app");
            assert_eq!(r.device_udid, "udid-1");
        }
        other => panic!("unexpected {:?}", other),
    }
}

#[test]
fn run_builds_from_source_and_falls_back_to_generic_destination() {
    let mut config = config_with(Some("/src"), None, None);
    let mut adapter = Recorder::default();
    let mut d = run(None, None, None, true);
    d.advance(&mut config, DeployEvent::Begin, &mut adapter).unwrap();
    match d.advance(&mut config, DeployEvent::Devices(vec![phone()]), &mut adapter).unwrap() {
        DeployAction::ReadDir { dir } => assert_eq!(dir, "/src"),
        other => panic!("unexpected {:?}", other),
    }
    match d.advance(&mut config, DeployEvent::DirEntries(vec!["Demo.xcodeproj".into()]), &mut adapter).unwrap() {
        DeployAction::ListSchemes { project_path, is_workspace } => {
            assert_eq!(project_path, "/src/Demo.xcodeproj");
            assert!(!is_workspace);
        }
        other => panic!("unexpected {:?}", other),
    }
    let listing = "Information about project \"Demo\":\n    Schemes:\n        Demo\n";
    match d.advance(&mut config, DeployEvent::SchemeList(listing.into()), &mut adapter).unwrap() {
        DeployAction::Build { scheme, device_udid, verbose, .. } => {
            assert_eq!(scheme, "Demo");
            assert_eq!(device_udid.as_deref(), Some("udid-1"));
            assert!(verbose);
        }
        other => panic!("unexpected {:?}", other),
    }
    let no_destination = TossError::Xcrun("Unable to find a destination matching the provided destination specifier".into());
    match d.advance(&mut config, DeployEvent::Built(Err(no_destination)), &mut adapter).unwrap() {
        DeployAction::Build { device_udid, .. } => assert!(device_udid.is_none()),
        other => panic!("unexpected {:?}", other),
    }
    match d.advance(&mut config, DeployEvent::Built(Ok(())), &mut adapter).unwrap() {
        DeployAction::FindBuilds { source_dir } => assert_eq!(source_dir, "/src"),
        other => panic!("unexpected {:?}", other),
    }
    match d.advance(&mut config, DeployEvent::Builds(vec!["/dd/Build/Products/Debug-iphoneos".into()]), &mut adapter).unwrap() {
        DeployAction::ReadDir { dir } => assert_eq!(dir, "/dd/Build/Products/Debug-iphoneos"),
        other => panic!("unexpected {:?}", other),
    }
    assert!(matches!(
        d.advance(&mut config, DeployEvent::DirEntries(vec!["Demo.app".into()]), &mut adapter).unwrap(),
        DeployAction::ExtractBundleId { .. }
    ));
    assert!(matches!(
        d.advance(&mut config, DeployEvent::BundleId("com.demo".into()), &mut adapter).unwrap(),
        DeployAction::Install { .. }
    ));
    match d.advance(&mut config, DeployEvent::CommandDone(Ok(())), &mut adapter).unwrap() {
        DeployAction::Launch { bundle_id, .. } => assert_eq!(bundle_id, "com.demo"),
        other => panic!("unexpected {:?}", other),
    }
    assert!(matches!(d.advance(&mut config, DeployEvent::CommandDone(Ok(())), &mut adapter).unwrap(), DeployAction::SaveConfig));
    assert!(matches!(
        d.advance(&mut config, DeployEvent::Saved, &mut adapter).unwrap(),
        DeployAction::Finished(DeployOutcome::Ran(_))
    ));
}

#[test]
fn building_needs_a_source_path() {
    let mut config = config_with(None, None, None);
    let mut adapter = Recorder::default();
    let mut d = install(None, None, Some(false), false);
    d.advance(&mut config, DeployEvent::Begin, &mut adapter).unwrap();
    let err = d.advance(&mut config, DeployEvent::Devices(vec![phone()]), &mut adapter).unwrap_err();
    assert_eq!(
        err.message(),
        "project error: project 'demo' has no source path — re-register with path or use --prebuilt"
    );
}

#[test]
fn workflow_for_a_known_device_finishes_after_the_install() {
    let mut config = config_with(None, Some("Demo.app"), Some("com.demo"));
    let mut adapter = Recorder::default();
    let mut d = install_app_workflow("demo", "dev-id", "udid-1", "Phone", true, false);
    assert!(matches!(
        d.advance(&mut config, DeployEvent::Begin, &mut adapter).unwrap(),
        DeployAction::Install { .. }
    ));
    assert!(matches!(
        d.advance(&mut config, DeployEvent::CommandDone(Ok(())), &mut adapter).unwrap(),
        DeployAction::Finished(DeployOutcome::Installed(_))
    ));
    assert!(adapter.events.is_empty());
    assert!(config.projects.get("demo").unwrap().last_tossed_at.is_none());
}

fn ipa_config(ipa_path: Option<&str>) -> Config {
    let mut config = Config::default();
    config.projects.insert(
        "wechat".into(),
        ProjectConfig {
            kind: ProjectKind::Ipa,
            path: None,
            build_dir: String::new(),
            bundle_id: Some("com.tencent.xin".into()),
            app_name: None,
            ipa_path: ipa_path.map(|s| s.to_string()),
            original_name: Some("WeChat.ipa".into()),
            last_tossed_at: None,
        },
    );
    config
}

fn signed(launched: bool) -> SignResult {
    SignResult {
        device_id: "dev-id".into(),
        device_udid: "udid-1".into(),
        device_name: "Phone".into(),
        app_path: "/tmp/x/Payload/WeChat.app".into(),
        final_bundle_id: "cn.tmp.xin.abcd1234".into(),
        launched,
    }
}

#[test]
fn ipa_project_install_resigns_the_cached_ipa_and_records_it() {
    let mut config = ipa_config(Some("/cache/wechat-a1b2c3d4.ipa"));
    let mut adapter = Recorder::default();
    let mut d = install(None, None, None, false);
    d.advance(&mut config, DeployEvent::Begin, &mut adapter).unwrap();
    match d.advance(&mut config, DeployEvent::Devices(vec![phone()]), &mut adapter).unwrap() {
        DeployAction::SignIpa { ipa_path, device, launch } => {
            assert_eq!(ipa_path, "/cache/wechat-a1b2c3d4.ipa");
            assert_eq!(device, "dev-id");
            assert!(!launch);
        }
        other => panic!("unexpected {:?}", other),
    }
    assert!(matches!(
        d.advance(&mut config, DeployEvent::IpaSigned(Ok(signed(false))), &mut adapter).unwrap(),
        DeployAction::SaveConfig
    ));
    assert!(config.projects.get("wechat").unwrap().last_tossed_at.is_some());
    match d.advance(&mut config, DeployEvent::Saved, &mut adapter).unwrap() {
        DeployAction::Finished(DeployOutcome::Installed(r)) => {
            assert_eq!(r.project_name, "wechat");
            assert_eq!(r.app_path, "/tmp/x/Payload/WeChat.app");
        }
        other => panic!("unexpected {:?}", other),
    }
}

#[test]
fn ipa_project_run_asks_for_a_launch_and_reports_the_final_bundle_id() {
    let mut config = ipa_config(Some("/cache/wechat.ipa"));
    let mut adapter = Recorder::default();
    let mut d = run(Some("wechat"), Some("dev-id"), None, false);
    d.advance(&mut config, DeployEvent::Begin, &mut adapter).unwrap();
    match d.advance(&mut config, DeployEvent::Devices(vec![phone()]), &mut adapter).unwrap() {
        DeployAction::SignIpa { launch, .. } => assert!(launch),
        other => panic!("unexpected {:?}", other),
    }
    assert!(matches!(
        d.advance(&mut config, DeployEvent::IpaSigned(Ok(signed(true))), &mut adapter).unwrap(),
        DeployAction::SaveConfig
    ));
    match d.advance(&mut config, DeployEvent::Saved, &mut adapter).unwrap() {
        DeployAction::Finished(DeployOutcome::Ran(r)) => assert_eq!(r.bundle_id, "cn.tmp.xin.abcd1234"),
        other => panic!("unexpected {:?}", other),
    }
}

#[test]
fn ipa_project_failures_leave_the_config_alone() {
    let mut config = ipa_config(None);
    let mut adapter = Recorder::default();
    let mut d = install(None, None, None, false);
    d.advance(&mut config, DeployEvent::Begin, &mut adapter).unwrap();
    let err = d.advance(&mut config, DeployEvent::Devices(vec![phone()]), &mut adapter).unwrap_err();
    assert_eq!(err.message(), "project error: project 'wechat' is missing its cached ipa path");

    let mut config = ipa_config(Some("/cache/wechat.ipa"));
    let mut d = install(None, None, None, false);
    d.advance(&mut config, DeployEvent::Begin, &mut adapter).unwrap();
    d.advance(&mut config, DeployEvent::Devices(vec![phone()]), &mut adapter).unwrap();
    let failed = d.advance(&mut config, DeployEvent::IpaSigned(Err(TossError::Signing("boom".into()))), &mut adapter);
    assert!(failed.is_err());
    assert!(config.projects.get("wechat").unwrap().last_tossed_at.is_none());

    let mut d = launch(None, None);
    d.advance(&mut config, DeployEvent::Begin, &mut adapter).unwrap();
    let err = d.advance(&mut config, DeployEvent::Devices(vec![phone()]), &mut adapter).unwrap_err();
    assert!(err.message().contains("is an IPA project"));
}
