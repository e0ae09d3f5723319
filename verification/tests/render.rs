use toss::clean::{CleanCategory, CleanItem, CleanReport, DeleteSummary};
use toss::config::{Config, ProjectConfig, ProjectKind};
use toss::device::{Device, DeviceState};
use toss::doctor::DoctorAccumulator;
use toss::interaction::WorkflowEvent;
use toss::project::AddedProject;
use toss::render::{
    added_project_lines, added_project_log, build_clean_details, build_doctor_details, clean_report_lines,
    deletable_keys_text, deletion_summary, device_alias, device_rows, display_paths, doctor_line, doctor_outcome,
    log_devices, pad_right, project_list_lines_at, render_event, state_show_lines_at,
};
use toss::state::{ProfileDirInfo, StateSnapshot};

#[test]
fn pads_to_width_in_characters() {
    assert_eq!(pad_right("ab", 4), "ab  ");
    assert_eq!(pad_right("abcdef", 4), "abcdef");
    assert_eq!(pad_right("é", 3), "é  ");
    assert_eq!(pad_right("x", 4), format!("{:<4}", "x"));
}

fn report_with_lines() -> toss::doctor::DoctorReport {
    let mut acc = DoctorAccumulator::new();
    acc.line("Config", "PASS", "config file", "/tmp/c.toml".to_string());
    acc.line("Xcode", "FAIL", "xcode-select", "missing".to_string());
    acc.line("Config", "WARN", "temp_bundle_prefix", "<unset>".to_string());
    acc.finish()
}

#[test]
fn doctor_details_group_lines_by_section() {
    let report = report_with_lines();
    assert_eq!(report.failures, 1);
    assert_eq!(report.warnings, 1);
    let lines = build_doctor_details(&report);
    assert_eq!(
        lines,
        vec![
            "toss doctor".to_string(),
            "".to_string(),
            "Config".to_string(),
            format!("  [{:<4}] {:<20} {}", "PASS", "config file", "/tmp/c.toml"),
            format!("  [{:<4}] {:<20} {}", "WARN", "temp_bundle_prefix", "<unset>"),
            "".to_string(),
            "Xcode".to_string(),
            format!("  [{:<4}] {:<20} {}", "FAIL", "xcode-select", "missing"),
            "".to_string(),
            "summary: 1 failure(s), 1 warning(s)".to_string(),
        ]
    );
    assert_eq!(doctor_line(&report.sections[1].lines[0]), "  [FAIL] xcode-select         missing");
}

#[test]
fn doctor_fails_only_with_failures() {
    let report = report_with_lines();
    let err = doctor_outcome(&report).unwrap_err();
    assert_eq!(err.message(), "config error: doctor found 1 failure(s) and 1 warning(s)");
    let mut acc = DoctorAccumulator::new();
    acc.line("Config", "WARN", "x", "y".to_string());
    assert!(doctor_outcome(&acc.finish()).is_ok());
}

fn item(category: CleanCategory, paths: usize, deletable: bool) -> CleanItem {
    CleanItem {
        category,
        paths: (0..paths).map(|i| format!("/p/{}", i)).collect(),
        size_bytes: 2048,
        path_count: paths,
        deletable,
    }
}

#[test]
fn clean_details_list_three_paths_and_notes() {
    let report = CleanReport {
        items: vec![item(CleanCategory::TempProfiles, 4, true)],
        notes: vec!["first".to_string()],
    };
    let lines = build_clean_details(&report);
    assert_eq!(
        lines,
        vec![
            "Local clean inventory",
            "",
            "Temporary profiles (temp-profiles)",
            "  owner: toss",
            "  safety: safe",
            "  size: 2.0 KB",
            "  path count: 4",
            "  purpose: Temporary provisioning profiles created for toss signing fallback.",
            "  delete: supported via temp-profiles",
            "  path: /p/0",
            "  path: /p/1",
            "  path: /p/2",
            "  path: ... and 1 more",
            "note: first",
        ]
    );
    let empty = CleanReport { items: vec![], notes: vec![] };
    assert_eq!(build_clean_details(&empty), vec!["Local clean inventory", "  <nothing found>"]);
}

#[test]
fn clean_report_lists_up_to_five_paths_and_a_notes_section() {
    let report = CleanReport {
        items: vec![item(CleanCategory::Config, 5, false), item(CleanCategory::DerivedData, 6, true)],
        notes: vec!["n1".to_string(), "n2".to_string()],
    };
    let lines = clean_report_lines(&report);
    assert_eq!(lines[8], "  delete: report only");
    assert_eq!(lines[13], "  path: /p/4");
    assert_eq!(lines[21], "  delete: supported via `--delete derived-data`");
    assert_eq!(lines[25], "  path: ... and 3 more");
    assert_eq!(&lines[26..], &["", "Notes", "  - n1", "  - n2"]);
    assert_eq!(display_paths(&report.items[0]).len(), 5);
    assert_eq!(display_paths(&report.items[1]), vec!["/p/0", "/p/1", "/p/2"]);
}

#[test]
fn deletion_summaries_and_hint() {
    let summary = DeleteSummary { deleted_paths: 2, reclaimed_bytes: 1536 };
    assert_eq!(deletion_summary(&summary, false), "deleted 2 path(s), reclaimed 1.5 KB");
    assert_eq!(deletion_summary(&summary, true), "Deleted 2 path(s), reclaimed 1.5 KB.");
    assert_eq!(deletable_keys_text(), "temp-profiles,provisioning-profiles,derived-data,cargo-target");
}

fn device(name: &str, id: &str, udid: &str, state: DeviceState) -> Device {
    Device {
        name: name.into(),
        identifier: id.into(),
        udid: udid.into(),
        model: "iPhone 15".into(),
        os_version: "18.0".into(),
        state,
    }
}

#[test]
fn device_log_shows_the_last_alias_of_each_device() {
    let mut config = Config::default();
    config.devices.aliases.insert("b".into(), "u1".into());
    config.devices.aliases.insert("a".into(), "u1".into());
    config.devices.aliases.insert("c".into(), "id-2".into());
    let devices = vec![
        device("One", "id-1", "u1", DeviceState::Connected),
        device("Two", "id-2", "u2", DeviceState::Unknown("busy".into())),
    ];
    assert_eq!(
        log_devices(&devices, &config),
        vec!["devices:", "  1. One iPhone 15 18.0 connected alias=b", "  2. Two iPhone 15 18.0 busy"]
    );
    assert_eq!(log_devices(&[], &config), vec!["no devices found"]);
    assert_eq!(device_alias(&config, "u1"), Some("b".to_string()));
    assert_eq!(device_alias(&config, "nothing"), None);
    let rows = device_rows(&devices, &config);
    assert_eq!(rows[0], ("1".into(), "One".into(), "iPhone 15".into(), "18.0".into(), "connected".into()));
    assert_eq!(rows[1].1, "Two (c)");
}

#[test]
fn events_read_as_under_way_or_done() {
    let e = WorkflowEvent::Installing { app_path: "/a/App.app".into(), device_name: "Phone".into() };
    assert_eq!(render_event(&e, false), "Installing /a/App.app on Phone...");
    assert_eq!(render_event(&e, true), "Installed /a/App.app on Phone.");
    let e = WorkflowEvent::TemporaryBundleId { original_bundle_id: "a.b".into(), temporary_bundle_id: "t.b.1".into() };
    assert_eq!(render_event(&e, false), "No usable profile for 'a.b' found, switching to temporary bundle ID 't.b.1'.");
    assert_eq!(render_event(&WorkflowEvent::CleanedTemporaryProfiles { count: 3 }, true), "Cleaned 3 temporary provisioning profile(s).");
    assert_eq!(render_event(&WorkflowEvent::Warning { message: "careful".into() }, false), "careful");
    assert_eq!(render_event(&WorkflowEvent::BuildSucceeded, false), "BUILD SUCCEEDED");
}

fn project(kind: ProjectKind) -> ProjectConfig {
    ProjectConfig {
        kind,
        path: if kind == ProjectKind::Xcode { Some("/src".into()) } else { None },
        build_dir: "/build".into(),
        bundle_id: Some("com.x".into()),
        app_name: None,
        ipa_path: if kind == ProjectKind::Ipa { Some("/cache/x.ipa".into()) } else { None },
        original_name: None,
        last_tossed_at: None,
    }
}

#[test]
fn project_list_groups_by_kind() {
    let mut config = Config::default();
    assert_eq!(
        project_list_lines_at(&config, (0, 0)),
        vec!["No projects registered. Use `toss projects add <path>` to add one."]
    );
    config.projects.insert("app".into(), project(ProjectKind::Xcode));
    config.defaults.project = Some("app".into());
    assert_eq!(
        project_list_lines_at(&config, (0, 0)),
        vec![
            "Xcode/App Projects",
            "app (default):",
            "  type:      xcode/app",
            "  build_dir: /build",
            "  source:    /src",
            "  bundle_id: com.x",
            "  last tossed at: <never>",
            "",
            "IPA Projects",
            "  <none>",
            "",
        ]
    );
    config.projects.insert("pkg".into(), project(ProjectKind::Ipa));
    let lines = project_list_lines_at(&config, (0, 0));
    assert_eq!(&lines[8..], &["IPA Projects", "pkg:", "  type:      ipa", "  cached:    /cache/x.ipa", "  bundle_id: com.x", "  last tossed at: <never>", ""]);
}

#[test]
fn added_projects_are_described() {
    let added = AddedProject {
        name: "demo".into(),
        kind: ProjectKind::Ipa,
        build_dir: None,
        source_dir: None,
        cached_ipa_path: Some("/c/demo.ipa".into()),
        original_name: Some("Demo.ipa".into()),
        app_name: None,
        bundle_id: Some("com.demo".into()),
        is_default: true,
    };
    assert_eq!(
        added_project_lines(&added),
        vec!["  type:      ipa", "  cached:    /c/demo.ipa", "  original:  Demo.ipa", "  bundle_id: com.demo"]
    );
    assert_eq!(
        added_project_log(&added),
        vec!["added project 'demo'", "type: ipa", "cached_ipa: /c/demo.ipa", "default project set automatically"]
    );
}

#[test]
fn state_is_printed_with_settings_projects_and_profiles() {
    let snapshot = StateSnapshot {
        config_path: "/c.toml".into(),
        temp_bundle_prefix: None,
        team_id: Some("T".into()),
        default_device: None,
        default_project: None,
        device_aliases: vec![("phone".into(), "u1".into())],
        projects: vec![("app".into(), project(ProjectKind::Xcode))],
        profile_dirs: vec![ProfileDirInfo { path: "/p".into(), file_count: 2 }],
        profile_inspections: Err("no access".into()),
    };
    let lines = state_show_lines_at(&snapshot, (0, 0));
    assert_eq!(
        lines,
        vec![
            "Local state",
            "  config file: /c.toml",
            "  stored here: defaults, device aliases, projects, temp_bundle_prefix, team_id",
            "  temp_bundle_prefix: <unset>",
            "  team_id: T",
            "  default_device: <unset>",
            "  default_project: <unset>",
            "",
            "Device aliases (1)",
            "  phone -> u1",
            "",
            "Projects (1)",
            "  app",
            "    build_dir: /build",
            "    source: /src",
            "    bundle_id: com.x",
            "    last_tossed_at: <never>",
            "",
            "Provisioning profile dirs (1)",
            "  /p (2 files)",
            "  stored here: downloaded Xcode provisioning profiles",
            "",
            "Provisioning profiles",
            "  unavailable: no access",
        ]
    );
}
