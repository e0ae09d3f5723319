use toss::config::{Config, ProjectKind};
use toss::project::{
    add_ipa_project, add_project, check_alias_free, classify_project_path, find_app_in_dir, find_xcode_project,
    derived_data_builds, find_xcodeproj, managed_ipa_path, parse_schemes, plan_ipa_project, remove_project, resolve_project, ProjectInput,
};

#[test]
fn first_project_becomes_default_and_names_are_unique() {
    let mut config = Config::default();
    let added = add_project(&mut config, None, Some("/src/My App".into()), "/dd/Build".into(), Some("My App!".into()), Some("My.app".into()), Some("com.my".into())).unwrap();
    assert_eq!(added.name, "myapp");
    assert!(added.is_default);
    assert_eq!(config.defaults.project.as_deref(), Some("myapp"));
    let again = add_project(&mut config, None, None, "/other/myapp".into(), None, None, None).unwrap_err();
    assert_eq!(again.message(), "project error: project 'myapp' already exists");
    let second = add_project(&mut config, Some("two"), None, "/b".into(), None, None, None).unwrap();
    assert!(!second.is_default);
    assert_eq!(config.defaults.project.as_deref(), Some("myapp"));
    assert!(check_alias_free(&config, Some("two")).is_err());
    assert!(check_alias_free(&config, Some("three")).is_ok());
    let loc = resolve_project(&config, "myapp").unwrap();
    assert_eq!(loc.build_dir, "/dd/Build");
    assert_eq!(loc.app_name.as_deref(), Some("My.app"));
}

#[test]
fn removing_the_default_project_clears_the_default() {
    let mut config = Config::default();
    add_project(&mut config, Some("a"), None, "/a".into(), None, None, None).unwrap();
    add_project(&mut config, Some("b"), None, "/b".into(), None, None, None).unwrap();
    let removed = remove_project(&mut config, "a").unwrap();
    assert!(removed.cleared_default);
    assert!(config.defaults.project.is_none());
    assert!(!remove_project(&mut config, "b").unwrap().cleared_default);
    assert_eq!(remove_project(&mut config, "b").unwrap_err().message(), "project error: no project named 'b' found");
}

#[test]
fn classifies_project_paths() {
    assert!(matches!(
        classify_project_path("~/x/App.app", "/h/x/App.app", true, None, true).unwrap(),
        ProjectInput::AppBundle { build_dir } if build_dir == "/h/x"
    ));
    assert!(matches!(
        classify_project_path("src", "src", true, Some("Demo.xcodeproj".into()), true).unwrap(),
        ProjectInput::Source { source_dir, project_name } if source_dir == "src" && project_name == "Demo.xcodeproj"
    ));
    assert!(matches!(
        classify_project_path("out", "out", true, None, true).unwrap(),
        ProjectInput::BuildDir { build_dir } if build_dir == "out"
    ));
    assert_eq!(classify_project_path("f", "f", true, None, false).unwrap_err().message(), "project error: 'f' is not a directory or .app bundle");
    assert_eq!(classify_project_path("nope", "nope", false, None, false).unwrap_err().message(), "project error: 'nope' does not exist");
}

#[test]
fn ipa_projects_are_registered_from_their_file_name() {
    let mut config = Config::default();
    let plan = plan_ipa_project(&config, "~/Demo App.ipa", "/h/Demo App.ipa", true, true, None).unwrap();
    assert_eq!(plan.original_name(), "Demo App.ipa");
    assert_eq!(plan.name(), "demoapp");
    let added = add_ipa_project(&mut config, plan, "/cache/demoapp.ipa".into(), Some("com.demo".into()));
    assert_eq!(added.kind, ProjectKind::Ipa);
    assert!(added.is_default);
    assert_eq!(managed_ipa_path(&config, "demoapp").unwrap(), "/cache/demoapp.ipa");
    assert!(resolve_project(&config, "demoapp").unwrap_err().message().contains("is an IPA project"));
    assert!(plan_ipa_project(&config, "x.zip", "x.zip", true, true, None).is_err());
    assert!(plan_ipa_project(&config, "x.ipa", "x.ipa", true, true, Some("demoapp")).is_err());
}

#[test]
fn finds_apps_projects_and_schemes() {
    let entries = vec!["a.txt".to_string(), "Demo.app".to_string()];
    assert_eq!(find_app_in_dir("/b", &entries).unwrap(), "Demo.app");
    assert!(find_app_in_dir("/b", &["x".to_string()]).is_err());
    assert!(find_app_in_dir("/b", &["A.app".to_string(), "B.app".to_string()]).is_err());
    let src = vec!["Demo.xcodeproj".to_string(), "Demo.xcworkspace".to_string()];
    assert_eq!(find_xcode_project("/s", &src).unwrap(), ("/s/Demo.xcworkspace".to_string(), true));
    assert_eq!(find_xcodeproj(&src), Some("Demo".to_string()));
    let listing = "Information about project \"Demo\":\n    Targets:\n        Demo\n\n    Schemes:\n        Demo\n        Demo Tests\n\n";
    assert_eq!(parse_schemes(listing).unwrap(), vec!["Demo".to_string(), "Demo Tests".to_string()]);
    assert!(parse_schemes("nothing").is_err());
}

#[test]
fn cached_ipa_copies_are_named_after_the_project_and_a_hash() {
    assert_eq!(toss::project::cached_ipa_file_name("wechat", "a1b2c3d4"), "wechat-a1b2c3d4.ipa");
}

#[test]
fn located_apps_are_joined_to_their_build_directory() {
    let project = |app_name: Option<&str>| toss::config::ProjectConfig {
        kind: ProjectKind::Xcode,
        path: None,
        build_dir: "/tmp/Build".into(),
        bundle_id: None,
        app_name: app_name.map(|a| a.to_string()),
        ipa_path: None,
        original_name: None,
        last_tossed_at: None,
    };
    let mut config = Config::default();
    config.projects.insert("demo".into(), project(Some("Demo.app")));
    config.projects.insert("bare".into(), project(None));
    let location = resolve_project(&config, "demo").unwrap();
    assert_eq!(location.app_path(), Some("/tmp/Build/Demo.app".to_string()));
    assert_eq!(resolve_project(&config, "bare").unwrap().app_path(), None);
}

#[test]
fn derived_data_builds_are_the_products_holding_an_app() {
    let products = vec![
        ("/dd/Demo-a/Build/Products/Debug-iphoneos".to_string(), Some(vec!["Demo.app".to_string(), "x.swiftmodule".to_string()])),
        ("/dd/Demo-b/Build/Products/Debug-iphoneos".to_string(), None),
        ("/dd/Demo-c/Build/Products/Debug-iphoneos".to_string(), Some(vec!["notes.txt".to_string()])),
    ];
    assert_eq!(
        derived_data_builds("Demo", &products).unwrap(),
        vec!["/dd/Demo-a/Build/Products/Debug-iphoneos".to_string()]
    );
    let err = derived_data_builds("Demo", &products[1..]).unwrap_err();
    assert_eq!(err.message(), "project error: no DerivedData build found for 'Demo' — build the project in Xcode first");
}

#[test]
fn extensions_and_stems_split_at_the_last_dot() {
    use_extension_cases();
    assert_eq!(find_xcodeproj(&["notes.txt".to_string(), "My.App.xcodeproj".to_string()]), Some("My.App".to_string()));
    assert_eq!(find_xcodeproj(&[".xcodeproj".to_string()]), None);
}

fn use_extension_cases() {
    assert!(toss::paths::extension_is("a/b.tar.gz", "gz"));
    assert!(!toss::paths::extension_is("a/b.tar.gz", "tar.gz"));
    assert!(!toss::paths::extension_is("a/.bashrc", "bashrc"));
    assert!(toss::paths::extension_is("a/.x.app", "app"));
    assert!(toss::paths::extension_is("a/b.", ""));
    assert!(!toss::paths::extension_is("noext", ""));
    assert!(!toss::paths::extension_is("a/..", ""));
}
