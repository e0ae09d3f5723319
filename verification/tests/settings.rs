use toss::config::{Config, ProjectConfig, ProjectKind};
use toss::settings::{set_default_device, set_default_project, set_team_id, set_temp_bundle_prefix, trim_matches_char};

#[test]
fn trims_a_character_at_both_ends() {
    assert_eq!(trim_matches_char("..a.b..", '.'), "a.b");
    assert_eq!(trim_matches_char("...", '.'), "");
    assert_eq!(trim_matches_char("", '.'), "");
}

#[test]
fn default_device_must_be_an_alias_or_aliased_udid() {
    let mut config = Config::default();
    config.devices.aliases.insert("phone".into(), "u1".into());
    set_default_device(&mut config, "phone").unwrap();
    assert_eq!(config.defaults.device.as_deref(), Some("phone"));
    set_default_device(&mut config, "u1").unwrap();
    assert_eq!(config.defaults.device.as_deref(), Some("u1"));
    let err = set_default_device(&mut config, "u2").unwrap_err();
    assert_eq!(
        err.message(),
        "config error: unknown device 'u2' — use `toss devices alias` to create an alias first, or provide a UDID"
    );
    assert_eq!(config.defaults.device.as_deref(), Some("u1"));
}

#[test]
fn default_project_must_be_registered() {
    let mut config = Config::default();
    assert!(set_default_project(&mut config, "demo").unwrap_err().message().contains("unknown project 'demo'"));
    config.projects.insert(
        "demo".into(),
        ProjectConfig {
            kind: ProjectKind::Xcode,
            path: None,
            build_dir: "/b".into(),
            bundle_id: None,
            app_name: None,
            ipa_path: None,
            original_name: None,
            last_tossed_at: None,
        },
    );
    set_default_project(&mut config, "demo").unwrap();
    assert_eq!(config.defaults.project.as_deref(), Some("demo"));
}

#[test]
fn temp_bundle_prefix_is_trimmed_and_checked() {
    let mut config = Config::default();
    assert_eq!(set_temp_bundle_prefix(&mut config, "  .cn.tmp. ").unwrap(), "cn.tmp");
    assert_eq!(config.signing.temp_bundle_prefix.as_deref(), Some("cn.tmp"));
    assert_eq!(set_temp_bundle_prefix(&mut config, " .. ").unwrap_err().message(), "config error: temp bundle prefix cannot be empty");
    assert_eq!(
        set_temp_bundle_prefix(&mut config, "cn..tmp").unwrap_err().message(),
        "config error: invalid temp bundle prefix 'cn..tmp' — use dot-separated ASCII letters/numbers/hyphens"
    );
    assert!(set_temp_bundle_prefix(&mut config, "cn.t_mp").is_err());
    assert_eq!(config.signing.temp_bundle_prefix.as_deref(), Some("cn.tmp"));
}

#[test]
fn team_id_is_trimmed_and_checked() {
    let mut config = Config::default();
    assert_eq!(set_team_id(&mut config, " FRR2796948 ").unwrap(), "FRR2796948");
    assert_eq!(config.signing.team_id.as_deref(), Some("FRR2796948"));
    assert_eq!(set_team_id(&mut config, "  ").unwrap_err().message(), "config error: team id cannot be empty");
    assert_eq!(
        set_team_id(&mut config, "AB-1").unwrap_err().message(),
        "config error: invalid team id 'AB-1' — use ASCII letters and numbers only"
    );
}
