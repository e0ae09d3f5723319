use toss::sign::{ProvisioningProfile, ProvisioningProfileInspection, SigningIdentity};
use toss::signing_report::{identities_lines, profiles_lines, signing_doctor_lines, teams_lines};

fn identity(name: &str, hash: &str) -> SigningIdentity {
    SigningIdentity { hash: hash.into(), name: name.into() }
}

fn profile(name: &str, pattern: &str, teams: &[&str], devices: usize, all: bool, uuid: Option<&str>) -> ProvisioningProfile {
    ProvisioningProfile {
        path: format!("/profiles/{}.mobileprovision", name),
        uuid: uuid.map(|u| u.to_string()),
        name: name.into(),
        team_ids: teams.iter().map(|t| t.to_string()).collect(),
        bundle_id_pattern: pattern.into(),
        expiration_epoch: None,
        provisioned_devices: (0..devices).map(|i| format!("udid-{}", i)).collect(),
        provisions_all_devices: all,
    }
}

fn parsed(p: ProvisioningProfile) -> ProvisioningProfileInspection {
    ProvisioningProfileInspection { path: p.path.clone(), profile: Some(p), error: None }
}

#[test]
fn identities_are_listed_with_their_hashes() {
    let lines = identities_lines(&[identity("Apple Development: me (ABCDE12345)", "H1"), identity("Other", "H2")]);
    assert_eq!(
        lines,
        vec![
            "Signing identities (2)",
            "  Apple Development: me (ABCDE12345)",
            "    hash: H1",
            "  Other",
            "    hash: H2",
        ]
    );
    assert_eq!(identities_lines(&[]), vec!["Signing identities (0)"]);
}

#[test]
fn profiles_are_listed_with_temp_markers_and_failures() {
    let inspections = vec![
        parsed(profile("Temp", "cn.tmp.app.1", &["TEAM1", "TEAM2"], 0, false, Some("U-1"))),
        parsed(profile("Wild", "com.example.*", &[], 3, false, None)),
        parsed(profile("All", "*", &["TEAM1"], 0, true, None)),
        ProvisioningProfileInspection { path: "/profiles/bad".into(), profile: None, error: None },
    ];
    let lines = profiles_lines(&inspections, Some("cn.tmp"));
    assert_eq!(
        lines,
        vec![
            "Provisioning profiles (4)",
            "  Temp [temp]",
            "    bundle: cn.tmp.app.1",
            "    team: TEAM1, TEAM2",
            "    uuid: U-1",
            "    devices: <unspecified>",
            "    path: /profiles/Temp.mobileprovision",
            "  Wild",
            "    bundle: com.example.*",
            "    team: <unknown>",
            "    devices: 3",
            "    path: /profiles/Wild.mobileprovision",
            "  All",
            "    bundle: *",
            "    team: TEAM1",
            "    devices: all",
            "    path: /profiles/All.mobileprovision",
            "  <parse failed>",
            "    path: /profiles/bad",
            "    error: unknown error",
        ]
    );
    assert_eq!(profiles_lines(&[], None), vec!["Provisioning profiles (0)", "  <none>"]);
}

#[test]
fn teams_are_sorted_and_distinct() {
    let identities = vec![
        identity("Apple Development: b (ZZZZZ99999)", "1"),
        identity("Apple Development: a (AAAAA11111)", "2"),
        identity("Apple Development: c (ZZZZZ99999)", "3"),
        identity("No team here", "4"),
    ];
    let inspections = vec![
        parsed(profile("P", "x", &["TEAMB", "TEAMA"], 0, false, None)),
        parsed(profile("Q", "y", &["TEAMA"], 0, false, None)),
    ];
    let lines = teams_lines(&Some("CONFIGTEAM".into()), &identities, &inspections, &["/a".to_string(), "/b".to_string()]);
    assert_eq!(
        lines,
        vec![
            "Teams",
            "  config: CONFIGTEAM",
            "  identities: AAAAA11111, ZZZZZ99999",
            "  profiles: TEAMA, TEAMB",
            "  profile_dirs: /a, /b",
        ]
    );
    assert_eq!(
        teams_lines(&None, &[], &[], &[]),
        vec!["Teams", "  config: <none>", "  identities: <none>", "  profiles: <none>"]
    );
}

#[test]
fn signing_doctor_reports_what_could_be_listed() {
    let identities = Ok(vec![identity("Apple Development: a (AAAAA11111)", "1")]);
    let inspections = Ok(vec![
        parsed(profile("P", "x", &["TEAMB", "TEAMA"], 0, false, None)),
        ProvisioningProfileInspection { path: "/bad".into(), profile: None, error: Some("broken".into()) },
    ]);
    assert_eq!(
        signing_doctor_lines(&None, &identities, &inspections),
        vec![
            "Signing doctor",
            "  config team: <unset>",
            "  identities:",
            "    Apple Development: a (AAAAA11111)",
            "  parsed profiles: 1",
            "  profile teams: TEAMA, TEAMB",
        ]
    );
    let failed_ids: Result<Vec<SigningIdentity>, String> = Err("signing error: no valid signing identities found".into());
    let failed_profiles: Result<Vec<ProvisioningProfileInspection>, String> = Err("io error: denied".into());
    assert_eq!(
        signing_doctor_lines(&Some("T1".into()), &failed_ids, &failed_profiles),
        vec![
            "Signing doctor",
            "  config team: T1",
            "  identities: unavailable (signing error: no valid signing identities found)",
            "  profiles: unavailable (io error: denied)",
        ]
    );
    assert_eq!(
        signing_doctor_lines(&None, &Ok(vec![]), &Ok(vec![])),
        vec!["Signing doctor", "  config team: <unset>", "  identities: <none>", "  parsed profiles: 0", "  profile teams: <none>"]
    );
}
