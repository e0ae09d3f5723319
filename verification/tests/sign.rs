use toss::sign::{signing_steps, BundleKind, BundleTarget, SigningPlan, SigningStep};
use toss::config::Config;
use toss::entitlements::{merged_entitlements, JsonDoc};
use toss::sign::{
    derive_extension_bundle_id, generate_temp_bundle_id, normalize_bundle_component, profiles_created_for_bundle_id,
    stable_hex_suffix, validate_bundle_prefix, validate_team_id, ProvisioningProfile,
};

fn signing_config() -> Config {
    let mut config = Config::default();
    config.signing.temp_bundle_prefix = Some("cn.yangym.tmp".into());
    config.signing.team_id = Some("FRR2796948".into());
    config
}

#[test]
fn temp_bundle_id_is_stable_and_prefixed() {
    let config = signing_config();

    let app_path = "/tmp/Kazumi.app";
    let one = generate_temp_bundle_id(&config, app_path, "com.example.kazumi").unwrap();
    let two = generate_temp_bundle_id(&config, app_path, "com.example.kazumi").unwrap();

    assert_eq!(one, two);
    assert!(one.starts_with("cn.yangym.tmp.kazumi."));
}

#[test]
fn extension_bundle_id_follows_temp_main_bundle_id() {
    let config = signing_config();

    let derived = derive_extension_bundle_id(
        "com.example.app",
        "cn.yangym.tmp.app.1234",
        "com.example.app.widget",
        "/tmp/Widget.appex",
        &config,
    )
    .unwrap();

    assert_eq!(derived, "cn.yangym.tmp.app.1234.widget");
}

fn profile(path: &str, uuid: &str, name: &str, pattern: &str) -> ProvisioningProfile {
    ProvisioningProfile {
        path: path.to_string(),
        uuid: Some(uuid.into()),
        name: name.into(),
        team_ids: vec![],
        bundle_id_pattern: pattern.into(),
        expiration_epoch: None,
        provisioned_devices: vec![],
        provisions_all_devices: false,
    }
}

#[test]
fn created_profiles_only_include_new_exact_matches() {
    let before = vec!["/tmp/existing.mobileprovision".to_string()];
    let after = vec![
        profile("/tmp/existing.mobileprovision", "old", "existing", "cn.yangym.tmp.kazumi.1234"),
        profile("/tmp/new.mobileprovision", "new", "new", "cn.yangym.tmp.kazumi.1234"),
        profile("/tmp/wildcard.mobileprovision", "wild", "wildcard", "cn.yangym.tmp.*"),
    ];

    let created = profiles_created_for_bundle_id(&before, &after, "cn.yangym.tmp.kazumi.1234");
    assert_eq!(created, vec!["/tmp/new.mobileprovision".to_string()]);
}

#[test]
fn merged_entitlements_keep_original_capabilities_but_use_profile_values() {
    let profile = JsonDoc::parse(
        br#"{
            "application-identifier": "TEAMID.com.example.app",
            "com.apple.developer.team-identifier": "TEAMID",
            "keychain-access-groups": ["TEAMID.com.example.app"],
            "aps-environment": "development"
        }"#,
    )
    .unwrap();
    let original = JsonDoc::parse(
        br#"{
            "aps-environment": "production",
            "com.apple.developer.associated-domains": ["applinks:example.com"]
        }"#,
    )
    .unwrap();

    let merged = merged_entitlements(&profile, Some(&original));

    assert_eq!(merged.get("aps-environment").unwrap(), "development");
    assert!(merged.contains_key("application-identifier"));
    assert!(!merged.contains_key("com.apple.developer.associated-domains"));
}

#[test]
fn merged_entitlements_take_profile_values_for_original_keys() {
    let profile = JsonDoc::parse(br#"{"application-identifier": "T.a", "com.apple.security.app-sandbox": true}"#).unwrap();
    let original = JsonDoc::parse(br#"{"com.apple.security.app-sandbox": false, "application-identifier": "X.y"}"#).unwrap();
    let merged = merged_entitlements(&profile, Some(&original));
    assert_eq!(merged.get("application-identifier").unwrap(), "T.a");
    assert_eq!(merged.get("com.apple.security.app-sandbox").unwrap(), &serde_json::Value::Bool(true));
    let alone = merged_entitlements(&profile, None);
    assert!(!alone.contains_key("com.apple.security.app-sandbox"));
    assert!(alone.contains_key("application-identifier"));
    let bare = JsonDoc::parse(br#"{"com.apple.security.app-sandbox": true}"#).unwrap();
    assert!(merged_entitlements(&bare, None).contains_key("com.apple.security.app-sandbox"));
    let bytes = merged.to_json_bytes().unwrap();
    let back = JsonDoc::parse(&bytes).unwrap();
    assert_eq!(back.get("application-identifier").unwrap(), "T.a");
}

#[test]
fn json_errors_are_reported_as_json_errors() {
    let err = JsonDoc::parse(b"{not json").unwrap_err();
    assert!(err.message().starts_with("json parse error: "));
    let other = JsonDoc::parse(b"[1, 2]").unwrap();
    assert!(other.get("x").is_none());
    assert!(!other.contains_key("x"));
}

#[test]
fn bundle_prefix_and_team_id_validation() {
    assert!(validate_bundle_prefix("cn.yangym-1.tmp"));
    assert!(!validate_bundle_prefix(".cn.tmp"));
    assert!(!validate_bundle_prefix("cn..tmp"));
    assert!(!validate_bundle_prefix("cn.tmp."));
    assert!(!validate_bundle_prefix("cn.t_mp"));
    assert!(!validate_bundle_prefix(""));
    assert!(validate_team_id("FRR2796948"));
    assert!(!validate_team_id("FRR-796948"));
}

#[test]
fn bundle_components_are_normalized() {
    assert_eq!(normalize_bundle_component("My App!"), "my-app");
    assert_eq!(normalize_bundle_component("--Kazumi--"), "kazumi");
    assert_eq!(normalize_bundle_component("!!!"), "");
}

#[test]
fn stable_hex_suffix_is_fnv1a_low_bits() {
    assert_eq!(stable_hex_suffix(""), "84222325");
    assert_eq!(stable_hex_suffix("a"), "8601ec8c");
    assert_eq!(stable_hex_suffix("a").len(), 8);
}

#[test]
fn temp_bundle_id_needs_a_valid_prefix() {
    let mut config = signing_config();
    config.signing.temp_bundle_prefix = None;
    assert!(generate_temp_bundle_id(&config, "/tmp/A.app", "com.a").unwrap_err().message().contains("set-temp-bundle-prefix"));
    config.signing.temp_bundle_prefix = Some("bad..prefix".into());
    assert!(generate_temp_bundle_id(&config, "/tmp/A.app", "com.a").unwrap_err().message().contains("invalid configured temp bundle prefix"));
}

#[test]
fn json_documents_write_back_every_member() {
    let doc = JsonDoc::parse(br#"{"b": 1, "a": {"x": [true, null]}, "c": "text"}"#).unwrap();
    let bytes = doc.to_json_bytes().unwrap();
    assert_eq!(bytes, br#"{"a":{"x":[true,null]},"b":1,"c":"text"}"#.to_vec());
    let back = JsonDoc::parse(&bytes).unwrap();
    for key in ["a", "b", "c"] {
        assert!(back.contains_key(key));
    }
    assert!(!back.contains_key("d"));
    assert_eq!(back.get("c").unwrap(), "text");
    let other = JsonDoc::parse(b"[1, 2]").unwrap();
    assert_eq!(other.to_json_bytes().unwrap(), b"[1,2]".to_vec());
}

#[test]
fn bundles_are_readied_then_extensions_then_the_app_signed() {
    let target = |path: &str, kind: BundleKind, from: &str, to: &str| BundleTarget {
        path: path.to_string(),
        kind,
        original_bundle_id: from.to_string(),
        final_bundle_id: to.to_string(),
        profile: profile("/p.mobileprovision", "u", "n", to),
    };
    let plan = SigningPlan {
        targets: vec![
            target("/x/App.app", BundleKind::App, "com.a", "tmp.a"),
            target("/x/App.app/PlugIns/Deep.appex/PlugIns/In.appex", BundleKind::AppExtension, "com.a.d.i", "com.a.d.i"),
            target("/x/App.app/PlugIns/Share.appex", BundleKind::AppExtension, "com.a.s", "tmp.a.s"),
        ],
        cleanup_profiles: vec![],
    };
    assert_eq!(
        signing_steps(&plan, "/x/App.app").unwrap(),
        vec![
            SigningStep::RewriteBundleId(0),
            SigningStep::EmbedProfile(0),
            SigningStep::EmbedProfile(1),
            SigningStep::RewriteBundleId(2),
            SigningStep::EmbedProfile(2),
            SigningStep::SignBundle(2),
            SigningStep::SignBundle(1),
            SigningStep::SignBundle(0),
            SigningStep::Verify,
        ]
    );
    let err = signing_steps(&plan, "/y/Other.app").unwrap_err();
    assert_eq!(err.message(), "signing error: main app target missing from signing plan");
}
