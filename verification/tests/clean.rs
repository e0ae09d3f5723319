use toss::clean::{
    build_file_item, build_root_item, collect_report, config_item, delete_categories, find_item, format_bytes,
    parse_delete_categories, profile_files, tally_deletion, temp_profile_paths, temp_profiles_item, CleanCategory, CleanItem, CleanReport,
};
use toss::config::Config;
use toss::sign::{ProvisioningProfile, ProvisioningProfileInspection};

#[test]
fn format_bytes_uses_human_units() {
    assert_eq!(format_bytes(999), "999 B");
    assert_eq!(format_bytes(2048), "2.0 KB");
}

#[test]
fn format_bytes_rounds_to_one_decimal_in_the_largest_unit() {
    assert_eq!(format_bytes(0), "0 B");
    assert_eq!(format_bytes(1023), "1023 B");
    assert_eq!(format_bytes(1024), "1.0 KB");
    assert_eq!(format_bytes(1536), "1.5 KB");
    assert_eq!(format_bytes(1024 * 1024), "1.0 MB");
    assert_eq!(format_bytes(3 * 1024 * 1024 * 1024 / 2), "1.5 GB");
    assert_eq!(format_bytes(5 * 1024 * 1024 * 1024 * 1024), "5.0 TB");
    assert_eq!(format_bytes(u64::MAX), format!("{:.1} TB", u64::MAX as f64 / 1024f64.powi(4)));
    for n in [1025u64, 1075, 1076, 10_000, 123_456_789, 987_654_321_012] {
        let mut value = n as f64;
        let mut unit = 0;
        let units = ["B", "KB", "MB", "GB", "TB"];
        while value >= 1024.0 && unit < units.len() - 1 {
            value /= 1024.0;
            unit += 1;
        }
        assert_eq!(format_bytes(n), format!("{:.1} {}", value, units[unit]));
    }
}

#[test]
fn parse_delete_categories_adds_safe_defaults() {
    let categories = parse_delete_categories(&[], true).unwrap();
    assert_eq!(categories, vec![CleanCategory::TempProfiles]);
}

#[test]
fn parse_delete_categories_rejects_unknown_values() {
    let err = parse_delete_categories(&[String::from("unknown")], false).unwrap_err();
    assert!(err.message().contains("unknown clean category"));
}

#[test]
fn parse_delete_categories_sorts_and_dedups() {
    let values = vec!["cargo-target".to_string(), "derived-data".to_string(), "cargo-target".to_string()];
    let categories = parse_delete_categories(&values, true).unwrap();
    assert_eq!(
        categories,
        vec![CleanCategory::TempProfiles, CleanCategory::DerivedData, CleanCategory::CargoTarget]
    );
    let err = parse_delete_categories(&[" cargo-target".to_string()], false).unwrap_err();
    assert_eq!(
        err.message(),
        "config error: unknown clean category ' cargo-target' — valid values: config, temp-profiles, provisioning-profiles, derived-data, cargo-target"
    );
}

#[test]
fn category_keys_parse_back() {
    for c in CleanCategory::all() {
        assert_eq!(CleanCategory::parse(c.key()), Some(c));
    }
    assert_eq!(CleanCategory::parse("temp-profile"), None);
    assert!(!CleanCategory::Config.supports_delete());
    assert!(CleanCategory::TempProfiles.is_safe_default());
    assert!(!CleanCategory::DerivedData.is_safe_default());
}

#[test]
fn delete_categories_removes_selected_paths() {
    let report = CleanReport {
        items: vec![CleanItem {
            category: CleanCategory::TempProfiles,
            paths: vec!["/tmp/temp.mobileprovision".to_string()],
            size_bytes: 5,
            path_count: 1,
            deletable: true,
        }],
        notes: Vec::new(),
    };

    let plan = delete_categories(&report, &[CleanCategory::TempProfiles]);
    assert!(plan.refusal.is_none());
    assert_eq!(plan.batches, vec![0]);
    let summary = tally_deletion(&report, &plan.batches, &[1]).unwrap();
    assert_eq!(summary.deleted_paths, 1);
    assert_eq!(summary.reclaimed_bytes, 5);
}

#[test]
fn delete_categories_rejects_non_deletable_category() {
    let report = CleanReport {
        items: vec![CleanItem {
            category: CleanCategory::Config,
            paths: vec!["/tmp/config.toml".to_string()],
            size_bytes: 1,
            path_count: 1,
            deletable: false,
        }],
        notes: Vec::new(),
    };

    let plan = delete_categories(&report, &[CleanCategory::Config]);
    let err = plan.refusal.unwrap();
    assert!(err.message().contains("cannot be deleted automatically"));
}

#[test]
fn delete_categories_stops_at_the_first_refusal_and_skips_missing() {
    let report = collect_report(
        config_item("/tmp/config.toml".to_string(), true, 10),
        None,
        None,
        build_root_item(CleanCategory::DerivedData, "/dd".to_string(), true, 100, 3),
        None,
    );
    let plan = delete_categories(&report, &[CleanCategory::CargoTarget, CleanCategory::DerivedData, CleanCategory::Config]);
    assert_eq!(plan.batches, vec![1]);
    assert_eq!(
        plan.refusal.unwrap().message(),
        "config error: category 'config' cannot be deleted automatically"
    );
    assert_eq!(find_item(&report.items, CleanCategory::DerivedData), Some(1));
    assert_eq!(find_item(&report.items, CleanCategory::TempProfiles), None);
}

#[test]
fn report_lists_found_items_in_order_with_notes() {
    let report = collect_report(
        None,
        build_file_item(CleanCategory::TempProfiles, vec!["/p/a".into(), "/p/b".into()], &[3, 4]),
        None,
        build_root_item(CleanCategory::DerivedData, "/dd".to_string(), false, 0, 0),
        build_root_item(CleanCategory::CargoTarget, "/t".to_string(), true, 7, 2),
    );
    assert_eq!(report.items.len(), 2);
    assert_eq!(report.items[0].category, CleanCategory::TempProfiles);
    assert_eq!(report.items[0].size_bytes, 7);
    assert_eq!(report.items[0].path_count, 2);
    assert!(report.items[0].deletable);
    assert_eq!(report.items[1].category, CleanCategory::CargoTarget);
    assert_eq!(report.items[1].path_count, 2);
    assert_eq!(report.notes.len(), 2);
    assert!(report.notes[1].contains("does not own them exclusively"));
    assert!(build_file_item(CleanCategory::TempProfiles, vec![], &[]).is_none());
    assert!(config_item("/c".into(), false, 0).is_none());
}

fn inspection(path: &str, pattern: Option<&str>) -> ProvisioningProfileInspection {
    ProvisioningProfileInspection {
        path: path.to_string(),
        profile: pattern.map(|p| ProvisioningProfile {
            path: path.to_string(),
            uuid: None,
            name: "n".into(),
            team_ids: vec![],
            bundle_id_pattern: p.to_string(),
            expiration_epoch: None,
            provisioned_devices: vec![],
            provisions_all_devices: false,
        }),
        error: None,
    }
}

#[test]
fn temp_profiles_are_those_under_the_prefix() {
    let inspections = vec![
        inspection("/a", Some("cn.tmp.app.1")),
        inspection("/b", Some("com.other")),
        inspection("/c", None),
        inspection("/d", Some("cn.tmp.x")),
    ];
    let mut config = Config::default();
    assert_eq!(temp_profile_paths(&config, &inspections), None);
    config.signing.temp_bundle_prefix = Some("cn.tmp".into());
    assert_eq!(temp_profile_paths(&config, &inspections), Some(vec!["/a".to_string(), "/d".to_string()]));
}

#[test]
fn deletion_totals_add_up_the_planned_items() {
    let report = collect_report(
        None,
        build_file_item(CleanCategory::TempProfiles, vec!["/p/a".into(), "/p/b".into()], &[3, 4]),
        None,
        build_root_item(CleanCategory::DerivedData, "/dd".to_string(), true, 100, 9),
        None,
    );
    let plan = delete_categories(&report, &[CleanCategory::DerivedData, CleanCategory::TempProfiles]);
    assert_eq!(plan.batches, vec![1, 0]);
    let summary = tally_deletion(&report, &plan.batches, &[1, 2]).unwrap();
    assert_eq!(summary.deleted_paths, 3);
    assert_eq!(summary.reclaimed_bytes, 107);
    let big = collect_report(None, None, None, build_root_item(CleanCategory::DerivedData, "/dd".into(), true, u64::MAX, 1), None);
    assert!(tally_deletion(&big, &[0, 0], &[1, 1]).is_none());
}

#[test]
fn the_temp_profiles_item_needs_a_prefix_and_a_match() {
    let inspections = vec![inspection("/a", Some("cn.tmp.app.1")), inspection("/b", Some("com.other"))];
    let mut config = Config::default();
    assert!(temp_profiles_item(&config, &inspections, &[]).is_none());
    config.signing.temp_bundle_prefix = Some("cn.tmp".into());
    let item = temp_profiles_item(&config, &inspections, &[42]).unwrap();
    assert_eq!(item.category, CleanCategory::TempProfiles);
    assert_eq!(item.paths, vec!["/a".to_string()]);
    assert_eq!(item.size_bytes, 42);
    assert_eq!(item.path_count, 1);
    assert!(item.deletable);
    config.signing.temp_bundle_prefix = Some("org.none".into());
    assert!(temp_profiles_item(&config, &inspections, &[]).is_none());
}

#[test]
fn profile_files_are_the_profiles_of_existing_directories_in_order() {
    let dirs = vec![
        ("/u/Provisioning Profiles".to_string(), Some(vec!["b.mobileprovision".to_string(), "notes.txt".to_string(), "a.mobileprovision".to_string()])),
        ("/m/Provisioning Profiles".to_string(), None),
        ("/a/Profiles/".to_string(), Some(vec!["z.mobileprovision".to_string()])),
    ];
    assert_eq!(
        profile_files(&dirs),
        vec![
            "/a/Profiles/z.mobileprovision".to_string(),
            "/u/Provisioning Profiles/a.mobileprovision".to_string(),
            "/u/Provisioning Profiles/b.mobileprovision".to_string(),
        ]
    );
}
