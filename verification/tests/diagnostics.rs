use toss::diagnostics::{display_paths, extract_team_id_from_identity_name, join_or_none, resolve_ipa_project_name, sorted_set};
use toss::config::{Config, ProjectConfig, ProjectKind};

#[test]
fn extracts_team_id_from_identity_name() {
    assert_eq!(
        extract_team_id_from_identity_name("Apple Development: test@example.com (VLXZVT5H87)"),
        Some("VLXZVT5H87".into())
    );
}

#[test]
fn rejects_identity_name_without_team_suffix() {
    assert_eq!(extract_team_id_from_identity_name("Apple Development: test@example.com"), None);
}

#[test]
fn rejects_team_suffix_that_is_not_ten_upper_case_characters() {
    assert_eq!(extract_team_id_from_identity_name("Apple Development: me (abc123defg)"), None);
    assert_eq!(extract_team_id_from_identity_name("Apple Development: me (VLXZVT5H8)"), None);
    assert_eq!(extract_team_id_from_identity_name("Apple Development: me ()"), None);
}

#[test]
fn join_or_none_joins_sorted_values_or_says_none() {
    assert_eq!(join_or_none(&[]), "<none>");
    let set = sorted_set(&["B".to_string(), "A".to_string(), "B".to_string()]);
    assert_eq!(set, vec!["A".to_string(), "B".to_string()]);
    assert_eq!(join_or_none(&set), "A, B");
    assert_eq!(display_paths(&["/a".to_string(), "/b".to_string()]), "/a, /b");
}

fn project(kind: ProjectKind) -> ProjectConfig {
    ProjectConfig {
        kind,
        path: None,
        build_dir: "/tmp/build".into(),
        bundle_id: None,
        app_name: None,
        ipa_path: None,
        original_name: None,
        last_tossed_at: None,
    }
}

#[test]
fn resolves_ipa_project_name_from_argument_or_default() {
    let mut config = Config::default();
    config.projects.insert("app".to_string(), project(ProjectKind::Xcode));
    config.projects.insert("pkg".to_string(), project(ProjectKind::Ipa));
    assert_eq!(resolve_ipa_project_name(&config, Some("pkg")).unwrap(), Some("pkg".to_string()));
    assert_eq!(resolve_ipa_project_name(&config, Some("app")).unwrap(), None);
    assert!(resolve_ipa_project_name(&config, Some("nope")).unwrap_err().message().contains("unknown project 'nope'"));
    assert_eq!(resolve_ipa_project_name(&config, None).unwrap(), None);
    config.defaults.project = Some("pkg".to_string());
    assert_eq!(resolve_ipa_project_name(&config, None).unwrap(), Some("pkg".to_string()));
}
