use toss::config::Config;
use toss::device::{Device, DeviceState};
use toss::error::TossError;
use toss::interaction::{WorkflowAdapter, WorkflowEvent};
use toss::sign::{parse_signing_identities, BundleKind, DiscoveredBundle, ProvisioningProfile};
use toss::sign_session::{sign_ipa, SignAction, SignEvent};

#[derive(Default)]
struct Recorder {
    events: Vec<WorkflowEvent>,
}

impl WorkflowAdapter for Recorder {
    fn emit(&mut self, event: WorkflowEvent) -> Result<(), TossError> {
        self.events.push(event);
        Ok(())
    }

    fn select_index(&mut self, _prompt: &str, _items: &[String], _default: usize) -> Result<Option<usize>, TossError> {
        Ok(None)
    }
}

const IDENTITIES: &str = "  1) 0123456789ABCDEF0123456789ABCDEF01234567 \"Apple Development: me (TEAMID1234)\"\n     1 valid identities found\n";

fn phone() -> Device {
    Device {
        name: "Phone".into(),
        identifier: "dev-id".into(),
        udid: "udid-1".into(),
        model: "iPhone".into(),
        os_version: "18.0".into(),
        state: DeviceState::Connected,
    }
}

fn app_profile() -> ProvisioningProfile {
    ProvisioningProfile {
        path: "/p/app.mobileprovision".into(),
        uuid: Some("u".into()),
        name: "App Dev".into(),
        team_ids: vec!["TEAMID1234".into()],
        bundle_id_pattern: "com.example.app".into(),
        expiration_epoch: Some(2_000_000_000),
        provisioned_devices: vec![],
        provisions_all_devices: true,
    }
}

#[test]
fn parses_security_identity_listing() {
    let ids = parse_signing_identities(IDENTITIES).unwrap();
    assert_eq!(ids.len(), 1);
    assert_eq!(ids[0].hash, "0123456789ABCDEF0123456789ABCDEF01234567");
    assert_eq!(ids[0].name, "Apple Development: me (TEAMID1234)");
    let err = parse_signing_identities("     0 valid identities found\n").unwrap_err();
    assert_eq!(err.message(), "signing error: no valid signing identities found in keychain");
}

fn start_session(launch: bool) -> (toss::sign_session::SignSession, Config, Recorder) {
    let config = Config::default();
    let mut adapter = Recorder::default();
    let mut s = sign_ipa("/x/App.ipa", None, None, None, launch);
    assert!(matches!(s.advance(&config, SignEvent::Begin, &mut adapter).unwrap(), SignAction::ListDevices));
    match s.advance(&config, SignEvent::Devices(vec![phone()]), &mut adapter).unwrap() {
        SignAction::Extract { ipa } => assert_eq!(ipa, "/x/App.ipa"),
        other => panic!("unexpected {:?}", other),
    }
    let extracted = SignEvent::Extracted { app_path: "/t/Payload/App.app".into(), bundle_id: "com.example.app".into() };
    assert!(matches!(s.advance(&config, extracted, &mut adapter).unwrap(), SignAction::ListIdentities));
    match s.advance(&config, SignEvent::IdentityList(IDENTITIES.into()), &mut adapter).unwrap() {
        SignAction::Scan { app_path } => assert_eq!(app_path, "/t/Payload/App.app"),
        other => panic!("unexpected {:?}", other),
    }
    (s, config, adapter)
}

#[test]
fn signs_installs_and_launches_with_a_fitting_profile() {
    let (mut s, config, mut adapter) = start_session(true);
    let scanned = SignEvent::Scanned {
        bundles: vec![DiscoveredBundle { path: "/t/Payload/App.app".into(), kind: BundleKind::App, bundle_id: "com.example.app".into() }],
        profiles: vec![app_profile()],
        now: 1_700_000_000,
    };
    assert!(matches!(s.advance(&config, scanned, &mut adapter).unwrap(), SignAction::SignBundles));
    let plan = s.plan().unwrap();
    assert_eq!(plan.targets.len(), 1);
    assert_eq!(plan.targets[0].final_bundle_id, "com.example.app");
    assert_eq!(plan.targets[0].profile.path, "/p/app.mobileprovision");
    assert!(plan.cleanup_profiles.is_empty());
    match s.advance(&config, SignEvent::Signed(Ok(())), &mut adapter).unwrap() {
        SignAction::Install { device, app_path } => {
            assert_eq!(device, "dev-id");
            assert_eq!(app_path, "/t/Payload/App.app");
        }
        other => panic!("unexpected {:?}", other),
    }
    match s.advance(&config, SignEvent::CommandDone(Ok(())), &mut adapter).unwrap() {
        SignAction::Launch { bundle_id, .. } => assert_eq!(bundle_id, "com.example.app"),
        other => panic!("unexpected {:?}", other),
    }
    assert!(matches!(s.advance(&config, SignEvent::CommandDone(Ok(())), &mut adapter).unwrap(), SignAction::Cleanup { .. }));
    match s.advance(&config, SignEvent::CleanedUp(Ok(())), &mut adapter).unwrap() {
        SignAction::Finished(r) => {
            assert!(r.launched);
            assert_eq!(r.final_bundle_id, "com.example.app");
            assert_eq!(r.device_udid, "udid-1");
        }
        other => panic!("unexpected {:?}", other),
    }
    assert!(adapter.events.iter().any(|e| matches!(e, WorkflowEvent::UsingIdentity { identity_name } if identity_name.contains("TEAMID1234"))));
}

#[test]
fn a_failed_install_still_cleans_up_and_then_reports_the_failure() {
    let (mut s, config, mut adapter) = start_session(false);
    let scanned = SignEvent::Scanned {
        bundles: vec![DiscoveredBundle { path: "/t/Payload/App.app".into(), kind: BundleKind::App, bundle_id: "com.example.app".into() }],
        profiles: vec![app_profile()],
        now: 1_700_000_000,
    };
    s.advance(&config, scanned, &mut adapter).unwrap();
    s.advance(&config, SignEvent::Signed(Ok(())), &mut adapter).unwrap();
    let failed = TossError::Xcrun("install failed".into());
    assert!(matches!(s.advance(&config, SignEvent::CommandDone(Err(failed.clone())), &mut adapter).unwrap(), SignAction::Cleanup { .. }));
    assert_eq!(s.advance(&config, SignEvent::CleanedUp(Ok(())), &mut adapter).unwrap_err(), failed);
}

#[test]
fn without_a_fitting_profile_the_app_needs_auto_provisioning() {
    let (mut s, mut config, mut adapter) = start_session(false);
    config.signing.team_id = Some("TEAMID1234".into());
    config.signing.temp_bundle_prefix = Some("cn.tmp".into());
    let mut expired = app_profile();
    expired.expiration_epoch = Some(1);
    let scanned = SignEvent::Scanned {
        bundles: vec![DiscoveredBundle { path: "/t/Payload/App.app".into(), kind: BundleKind::App, bundle_id: "com.example.app".into() }],
        profiles: vec![expired],
        now: 1_700_000_000,
    };
    match s.advance(&config, scanned, &mut adapter).unwrap() {
        SignAction::AutoProvision { kind, bundle_id, team_id, device_udid } => {
            assert_eq!(kind, BundleKind::App);
            assert!(bundle_id.starts_with("cn.tmp.app."));
            assert_eq!(team_id, "TEAMID1234");
            assert_eq!(device_udid, "udid-1");
        }
        other => panic!("unexpected {:?}", other),
    }
}

#[test]
fn an_override_profile_that_does_not_fit_is_refused() {
    let config = Config::default();
    let mut adapter = Recorder::default();
    let mut s = sign_ipa("/x/App.ipa", None, None, Some("/p/other.mobileprovision"), false);
    s.advance(&config, SignEvent::Begin, &mut adapter).unwrap();
    s.advance(&config, SignEvent::Devices(vec![phone()]), &mut adapter).unwrap();
    let extracted = SignEvent::Extracted { app_path: "/t/Payload/App.app".into(), bundle_id: "com.example.app".into() };
    s.advance(&config, extracted, &mut adapter).unwrap();
    s.advance(&config, SignEvent::IdentityList(IDENTITIES.into()), &mut adapter).unwrap();
    let scanned = SignEvent::Scanned {
        bundles: vec![DiscoveredBundle { path: "/t/Payload/App.app".into(), kind: BundleKind::App, bundle_id: "com.example.app".into() }],
        profiles: vec![],
        now: 1_700_000_000,
    };
    match s.advance(&config, scanned, &mut adapter).unwrap() {
        SignAction::LoadProfile { path } => assert_eq!(path, "/p/other.mobileprovision"),
        other => panic!("unexpected {:?}", other),
    }
    let mut other = app_profile();
    other.bundle_id_pattern = "com.other.app".into();
    let err = s.advance(&config, SignEvent::ProfileLoaded(other), &mut adapter).unwrap_err();
    assert_eq!(
        err.message(),
        "signing error: override profile '/p/other.mobileprovision' is incompatible with app 'com.example.app': bundle id 'com.example.app' does not match profile pattern 'com.other.app'"
    );
    assert!(s.plan().is_none());
}

#[test]
fn the_signing_event_names_the_ipa_file_and_the_device() {
    match toss::sign_session::signing_event("/x/y/App.ipa", "Phone") {
        WorkflowEvent::Signing { ipa_name, device_name } => {
            assert_eq!(ipa_name, "App.ipa");
            assert_eq!(device_name, "Phone");
        }
        other => panic!("unexpected {:?}", other),
    }
}

#[test]
fn the_front_end_is_told_each_step_of_a_signing() {
    let (mut s, config, mut adapter) = start_session(true);
    let scanned = SignEvent::Scanned {
        bundles: vec![DiscoveredBundle { path: "/t/Payload/App.app".into(), kind: BundleKind::App, bundle_id: "com.example.app".into() }],
        profiles: vec![app_profile()],
        now: 1_700_000_000,
    };
    s.advance(&config, scanned, &mut adapter).unwrap();
    s.advance(&config, SignEvent::Signed(Ok(())), &mut adapter).unwrap();
    s.advance(&config, SignEvent::CommandDone(Ok(())), &mut adapter).unwrap();
    s.advance(&config, SignEvent::CommandDone(Ok(())), &mut adapter).unwrap();
    s.advance(&config, SignEvent::CleanedUp(Ok(())), &mut adapter).unwrap();
    let kinds: Vec<&str> = adapter
        .events
        .iter()
        .map(|e| match e {
            WorkflowEvent::Signing { .. } => "signing",
            WorkflowEvent::ExtractedBundle { .. } => "extracted",
            WorkflowEvent::UsingIdentity { .. } => "identity",
            WorkflowEvent::SigningPlanStep { .. } => "plan",
            WorkflowEvent::Installing { .. } => "installing",
            WorkflowEvent::Launching { .. } => "launching",
            _ => "other",
        })
        .collect();
    assert_eq!(kinds, vec!["signing", "extracted", "identity", "plan", "installing", "launching"]);
    assert!(matches!(&adapter.events[1], WorkflowEvent::ExtractedBundle { bundle_id, app_name }
        if bundle_id == "com.example.app" && app_name == "App.app"));
    assert!(matches!(&adapter.events[3], WorkflowEvent::SigningPlanStep { kind, original_bundle_id, final_bundle_id, .. }
        if kind == "app" && original_bundle_id == "com.example.app" && final_bundle_id == "com.example.app"));
    assert!(matches!(&adapter.events[4], WorkflowEvent::Installing { app_path, device_name }
        if app_path == "/t/Payload/App.app" && device_name == "dev-id"));
    assert!(matches!(&adapter.events[5], WorkflowEvent::Launching { bundle_id, device_name }
        if bundle_id == "com.example.app" && device_name == "dev-id"));
}
