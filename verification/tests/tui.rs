use toss::config::{Config, ProjectConfig, ProjectKind};
use toss::device::{Device, DeviceState};
use toss::error::TossError;
use toss::tui::{
    build_state_details_at, device_state_symbol, device_summary, indeterminate_bar, is_default_device, menu_items,
    move_selection_down, move_selection_up, project_actions, project_artifact_lines, project_identity_lines,
    project_recent_lines, project_source_lines, refresh_device_panel, selected_project, AppState, Focus, MenuAction,
    ProjectAction,
};
use toss::state::StateSnapshot;

fn project(kind: ProjectKind) -> ProjectConfig {
    ProjectConfig {
        kind,
        path: Some("/src".into()),
        build_dir: "/build".into(),
        bundle_id: Some("com.demo".into()),
        app_name: Some("Demo.app".into()),
        ipa_path: Some("/cache/demo.ipa".into()),
        original_name: Some("Demo.ipa".into()),
        last_tossed_at: None,
    }
}

fn device(state: DeviceState) -> Device {
    Device {
        name: "Phone".into(),
        identifier: "id".into(),
        udid: "udid".into(),
        model: "iPhone".into(),
        os_version: "18".into(),
        state,
    }
}

#[test]
fn focus_cycles_through_panels_and_back() {
    let mut config = Config::default();
    let mut app = AppState::new();
    app.move_focus_next(&config);
    assert_eq!(app.focus, Focus::Devices);
    app.move_focus_next(&config);
    assert_eq!(app.focus, Focus::Menu);
    app.move_focus_prev(&config);
    assert_eq!(app.focus, Focus::Devices);
    config.projects.insert("demo".into(), project(ProjectKind::Xcode));
    app.move_focus_next(&config);
    assert_eq!(app.focus, Focus::Actions);
    app.move_focus_prev(&config);
    assert_eq!(app.focus, Focus::Devices);
    for f in [Focus::Projects, Focus::Devices, Focus::Actions, Focus::Menu] {
        app.focus = f;
        app.move_focus_next(&config);
        app.move_focus_prev(&config);
        assert_eq!(app.focus, f);
    }
}

#[test]
fn selection_moves_within_lists() {
    let mut config = Config::default();
    config.projects.insert("a".into(), project(ProjectKind::Xcode));
    config.projects.insert("b".into(), project(ProjectKind::Ipa));
    let mut app = AppState::new();
    move_selection_down(&mut app, &config);
    assert_eq!(app.project_selected, 1);
    move_selection_down(&mut app, &config);
    assert_eq!(app.focus, Focus::Devices);
    move_selection_up(&mut app);
    assert_eq!(app.focus, Focus::Projects);
    app.focus = Focus::Menu;
    for _ in 0..10 {
        move_selection_down(&mut app, &config);
    }
    assert_eq!(app.menu_selected, 6);
    app.project_selected = 5;
    app.clamp(&config);
    assert_eq!(app.project_selected, 1);
    assert_eq!(selected_project(&config, 1).unwrap().0, "b");
}

#[test]
fn project_actions_depend_on_kind() {
    let xcode = project(ProjectKind::Xcode);
    let ipa = project(ProjectKind::Ipa);
    assert_eq!(project_actions(&xcode).len(), 5);
    assert_eq!(
        project_actions(&ipa),
        vec![ProjectAction::Run, ProjectAction::Install, ProjectAction::SetDefault, ProjectAction::Remove]
    );
    assert_eq!(ProjectAction::Install.label(&xcode), "Install app");
    assert_eq!(ProjectAction::Run.label(&ipa), "Install + Launch IPA");
    assert_eq!(menu_items().len(), 7);
    assert_eq!(menu_items()[0], MenuAction::AddProject);
}

#[test]
fn device_summary_counts_states() {
    let devices = vec![
        device(DeviceState::Connected),
        device(DeviceState::Connected),
        device(DeviceState::Disconnected),
        device(DeviceState::Unknown("x".into())),
    ];
    assert_eq!(device_summary(&devices), "●2 ○1 ?1");
    assert_eq!(device_summary(&[]), "●0");
    assert_eq!(device_state_symbol(&DeviceState::Paired), '◐');
}

#[test]
fn default_device_by_identifier_udid_or_alias() {
    let mut config = Config::default();
    let d = device(DeviceState::Connected);
    assert!(!is_default_device(&config, &d));
    config.defaults.device = Some("udid".into());
    assert!(is_default_device(&config, &d));
    config.defaults.device = Some("phone".into());
    assert!(!is_default_device(&config, &d));
    config.devices.aliases.insert("phone".into(), "udid".into());
    assert!(is_default_device(&config, &d));
}

#[test]
fn progress_bar_bounces() {
    assert_eq!(indeterminate_bar(20, 0), format!("[{}{}]", "=".repeat(6), " ".repeat(14)));
    assert_eq!(indeterminate_bar(20, 14), format!("[{}{}]", " ".repeat(14), "=".repeat(6)));
    assert_eq!(indeterminate_bar(20, 15), format!("[{}{}{}]", " ".repeat(13), "=".repeat(6), " "));
    assert_eq!(indeterminate_bar(5, 28), indeterminate_bar(20, 0));
    assert_eq!(indeterminate_bar(40, 3).chars().count(), 42);
}

#[test]
fn refresh_keeps_selection_within_the_new_list() {
    let mut app = AppState::new();
    app.device_selected = 3;
    let log = refresh_device_panel(&mut app, Ok(vec![device(DeviceState::Connected), device(DeviceState::Paired)]), true);
    assert_eq!(log.as_deref(), Some("devices refreshed: ●1 ◐1"));
    assert_eq!(app.device_selected, 1);
    let log = refresh_device_panel(&mut app, Err(TossError::Xcrun("boom".into())), true);
    assert_eq!(log.as_deref(), Some("device refresh failed: xcrun failed: boom"));
    assert_eq!(app.device_error.as_deref(), Some("! refresh failed"));
    assert_eq!(app.devices.len(), 2);
    assert!(refresh_device_panel(&mut app, Ok(vec![]), false).is_none());
    assert_eq!(app.device_selected, 0);
}

#[test]
fn project_detail_panels() {
    let mut config = Config::default();
    config.defaults.project = Some("demo".into());
    let p = project(ProjectKind::Xcode);
    assert_eq!(project_identity_lines(&config, "demo", &p), vec!["kind  xcode/app", "default  ★ yes", "bundle  com.demo", "app     Demo.app"]);
    assert_eq!(project_source_lines(&p), vec!["build   /build", "source  /src"]);
    assert_eq!(project_artifact_lines(&p), vec!["mode    live build", "dir     /build", "sync    /src"]);
    assert_eq!(project_recent_lines(&config, "other", &p), vec!["tossed  <never>", "role    secondary", "target  Demo.app"]);
    let i = project(ProjectKind::Ipa);
    assert_eq!(project_source_lines(&i), vec!["cache   /cache/demo.ipa", "file    Demo.ipa"]);
}

#[test]
fn state_details_list_projects_by_kind() {
    let snapshot = StateSnapshot {
        config_path: "/c.toml".into(),
        temp_bundle_prefix: Some("cn.tmp".into()),
        team_id: None,
        default_device: None,
        default_project: Some("demo".into()),
        device_aliases: vec![],
        projects: vec![("demo".into(), project(ProjectKind::Ipa))],
        profile_dirs: vec![],
        profile_inspections: Ok(vec![]),
    };
    let lines = build_state_details_at(&snapshot, (0, 0));
    assert_eq!(
        lines,
        vec![
            "Local state",
            "config file: /c.toml",
            "temp_bundle_prefix: cn.tmp",
            "team_id: <unset>",
            "default_device: <unset>",
            "default_project: demo",
            "",
            "Device aliases (0)",
            "  <none>",
            "",
            "Projects (1)",
            "  Xcode/App Projects",
            "    <none>",
            "  IPA Projects",
            "    demo",
            "      type: ipa",
            "      cached_ipa: /cache/demo.ipa",
            "      original_name: Demo.ipa",
            "      bundle_id: com.demo",
            "      last_tossed_at: <never>",
            "",
            "Provisioning profile dirs (0)",
            "  <none>",
            "",
            "Provisioning profiles",
            "  <none>",
        ]
    );
}
