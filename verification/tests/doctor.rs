use toss::config::Config;
use toss::device::{Device, DeviceState};
use toss::doctor::{doctor_report, DoctorAccumulator, DoctorFacts};
use toss::sign::SigningIdentity;

fn facts() -> DoctorFacts {
    DoctorFacts {
        config_path: "/c.toml".into(),
        config_exists: false,
        xcode_select: Ok("/Applications/Xcode.app/Contents/Developer\n".into()),
        xcodebuild: Err("not found".into()),
        identities: Ok(vec![SigningIdentity { hash: "H".into(), name: "Apple Development: me (TEAMID1234)".into() }]),
        profile_dirs: vec![],
        inspections: Err("no profiles".into()),
        devices: Ok(vec![Device {
            name: "Phone".into(),
            identifier: "id".into(),
            udid: "u".into(),
            model: "iPhone".into(),
            os_version: "18".into(),
            state: DeviceState::Connected,
        }]),
    }
}

#[test]
fn counts_failures_and_warnings_by_status() {
    let mut acc = DoctorAccumulator::new();
    acc.line("A", "FAIL", "x", "1".into());
    acc.line("B", "WARN", "y", "2".into());
    acc.line("A", "INFO", "z", "3".into());
    acc.line("A", "FAIL", "w", "4".into());
    let report = acc.finish();
    assert_eq!(report.failures, 2);
    assert_eq!(report.warnings, 1);
    assert_eq!(report.sections.len(), 2);
    assert_eq!(report.sections[0].lines.len(), 3);
}

#[test]
fn reports_configuration_tools_identities_profiles_and_devices() {
    let mut config = Config::default();
    config.signing.team_id = Some("TEAMID1234".into());
    let report = doctor_report(&facts(), &config);
    let titles: Vec<&str> = report.sections.iter().map(|s| s.title).collect();
    assert_eq!(titles, vec!["Config", "Xcode", "Signing Identities", "Provisioning Cache", "Devices"]);
    let config_lines = &report.sections[0].lines;
    assert_eq!(config_lines[0].status, "WARN");
    assert_eq!(config_lines[0].detail, "/c.toml (not created yet)");
    assert_eq!(config_lines[2].label, "team_id");
    assert_eq!(config_lines[2].status, "PASS");
    let xcode = &report.sections[1].lines;
    assert_eq!(xcode[0].detail, "/Applications/Xcode.app/Contents/Developer");
    assert_eq!(xcode[1].status, "FAIL");
    let identities = &report.sections[2].lines;
    assert_eq!(identities[0].detail, "1 found");
    assert_eq!(identities[1].detail, "1 identity(ies) match 'TEAMID1234'");
    assert_eq!(report.sections[4].lines[0].detail, "1 of 1 detected");
    assert_eq!(report.failures, 1);
    assert_eq!(report.warnings, 4);
}
