use devtool::upgrade_details::{
    parse_legacy_text, UpgradeDetail, UpgradeDetails, UpgradeDetailsManager, UpgradeType,
};

#[test]
fn test_upgrade_detail_version_upgrade() {
    let detail = UpgradeDetail::version_upgrade(
        "test-package".to_string(),
        "1.0.0".to_string(),
        "1.1.0".to_string(),
    );

    assert_eq!(detail.name, "test-package");
    assert_eq!(detail.old_version, "1.0.0");
    assert_eq!(detail.new_version, "1.1.0");
    assert!(matches!(detail.upgrade_type, UpgradeType::VersionUpgrade));
    assert_eq!(detail.to_display_string(), "test-package: 1.0.0 → 1.1.0");
}

#[test]
fn test_upgrade_detail_new_installation() {
    let detail = UpgradeDetail::new_installation("new-package".to_string(), "2.0.0".to_string());

    assert_eq!(detail.name, "new-package");
    assert_eq!(detail.old_version, "未安装");
    assert_eq!(detail.new_version, "2.0.0");
    assert!(matches!(detail.upgrade_type, UpgradeType::NewInstallation));
    assert_eq!(
        detail.to_display_string(),
        "new-package: new installation → 2.0.0"
    );
}

#[test]
fn test_upgrade_details_collection() {
    let mut details = UpgradeDetails::new("test-tool".to_string());

    details.add_detail(UpgradeDetail::version_upgrade(
        "package1".to_string(),
        "1.0.0".to_string(),
        "1.1.0".to_string(),
    ));

    details.add_detail(UpgradeDetail::new_installation(
        "package2".to_string(),
        "2.0.0".to_string(),
    ));

    assert!(details.has_upgrades());
    assert_eq!(details.upgrade_count(), 2);
    assert_eq!(details.version_upgrade_count(), 1);
    assert_eq!(details.new_installation_count(), 1);
}

#[test]
fn downgrade_texts() {
    let d = UpgradeDetail::downgrade("pkg".to_string(), "2.0".to_string(), "1.9".to_string());
    assert_eq!(d.to_display_string(), "pkg: 2.0 → 1.9 (降级)");
    assert_eq!(d.to_legacy_string(), "pkg: 2.0 → 1.9");
    assert_eq!(d.to_enhanced_string(), "pkg: 2.0 → 1.9 (降级)");
    assert_eq!(d.get_toolchain_type(), "");
}

#[test]
fn enhanced_text_names_the_channel() {
    let d = UpgradeDetail::version_upgrade(
        "nightly-x86_64".to_string(),
        "1.80.0".to_string(),
        "1.81.0".to_string(),
    );
    assert_eq!(d.get_toolchain_type(), "nightly");
    assert_eq!(d.to_enhanced_string(), "[nightly] nightly-x86_64: 1.80.0 → 1.81.0");
    let n = UpgradeDetail::new_installation("stable-beta".to_string(), "1.0".to_string());
    assert_eq!(n.get_toolchain_type(), "stable");
    assert_eq!(n.to_enhanced_string(), "[stable] stable-beta: new installation → 1.0");
}

#[test]
fn collection_counts_and_strings() {
    let mut details = UpgradeDetails::new("brew".to_string());
    assert!(!details.has_upgrades());
    assert_eq!(details.total_count, 0);
    details.add_details(vec![
        UpgradeDetail::downgrade("a".to_string(), "2".to_string(), "1".to_string()),
        UpgradeDetail::new_installation("b".to_string(), "3".to_string()),
        UpgradeDetail::downgrade("c".to_string(), "5".to_string(), "4".to_string()),
    ]);
    assert_eq!(details.total_count, 3);
    assert_eq!(details.downgrade_count(), 2);
    assert_eq!(details.version_upgrade_count(), 0);
    assert_eq!(
        details.to_display_strings(),
        vec![
            "a: 2 → 1 (降级)".to_string(),
            "b: new installation → 3".to_string(),
            "c: 5 → 4 (降级)".to_string()
        ]
    );
    assert_eq!(
        details.to_legacy_strings(),
        vec![
            "a: 2 → 1".to_string(),
            "b: new installation → 3".to_string(),
            "c: 5 → 4".to_string()
        ]
    );
}

#[test]
fn manager_builds_collections() {
    let d = vec![UpgradeDetail::version_upgrade(
        "x".to_string(),
        "1".to_string(),
        "2".to_string(),
    )];
    let h = UpgradeDetailsManager::create_homebrew_details("Homebrew".to_string(), d.clone());
    assert_eq!(h.tool_name, "Homebrew");
    assert_eq!(h.upgrade_count(), 1);
    let r = UpgradeDetailsManager::create_rustup_details("Rustup".to_string(), d.clone());
    assert_eq!(r.total_count, 1);
    let m = UpgradeDetailsManager::create_mise_details("Mise".to_string(), Vec::new());
    assert!(!m.has_upgrades());
}

#[test]
fn legacy_text_is_read_back() {
    let text = "git: 2.40 → 2.41\n\n  node: new installation → 20.1.0  \nnot a detail\nbad: no arrow\n";
    let details = parse_legacy_text(text);
    assert_eq!(details.len(), 2);
    assert_eq!(details[0].name, "git");
    assert_eq!(details[0].old_version, "2.40");
    assert_eq!(details[0].new_version, "2.41");
    assert!(matches!(details[1].upgrade_type, UpgradeType::NewInstallation));
    assert_eq!(details[1].old_version, "未安装");
    assert_eq!(details[1].new_version, "20.1.0");
    let collection = UpgradeDetails::from_legacy_text(text);
    assert_eq!(collection.tool_name, "unknown");
    assert_eq!(collection.total_count, 2);
}

#[test]
fn legacy_strings_parse_back_to_the_same_details() {
    let mut details = UpgradeDetails::new("x".to_string());
    details.add_detail(UpgradeDetail::version_upgrade("a".to_string(), "1.0".to_string(), "1.1".to_string()));
    details.add_detail(UpgradeDetail::new_installation("b".to_string(), "2.0".to_string()));
    let text = details.to_legacy_strings().join("\n");
    let back = parse_legacy_text(&text);
    assert_eq!(back.len(), 2);
    assert_eq!(back[0].to_display_string(), details.details[0].to_display_string());
    assert_eq!(back[1].to_display_string(), details.details[1].to_display_string());
}

#[test]
fn grouped_text_by_channel() {
    let mut details = UpgradeDetails::new("Rustup".to_string());
    details.add_details(vec![
        UpgradeDetail::version_upgrade("nightly-x".to_string(), "1".to_string(), "2".to_string()),
        UpgradeDetail::version_upgrade("stable-x".to_string(), "3".to_string(), "4".to_string()),
        UpgradeDetail::new_installation("custom".to_string(), "5".to_string()),
    ]);
    assert_eq!(
        details.to_grouped_text(),
        "Stable 工具链:\n  [stable] stable-x: 3 → 4\n\nNightly 工具链:\n  [nightly] nightly-x: 1 → 2\n\n其他工具链:\n  custom: new installation → 5\n"
    );
    assert_eq!(UpgradeDetails::new("e".to_string()).to_grouped_text(), "");
}
