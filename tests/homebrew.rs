use devtool::homebrew::{
    brew_cleanup, brew_update, brew_upgrade, brew_cleanup_changed, brew_update_changed, brew_upgrade_changed, outdated_from_json_entry,
    parse_outdated_text, upgrade_output_shows_upgrades, upgraded_packages, SimpleOutdatedPackage,
};
use devtool::tasks::StepState;
use devtool::upgrade_details::UpgradeType;

fn pkg(name: &str, installed: &str, current: &str) -> SimpleOutdatedPackage {
    SimpleOutdatedPackage {
        name: name.to_string(),
        installed_version: installed.to_string(),
        current_version: current.to_string(),
    }
}

#[test]
fn outdated_text_lines() {
    let out = "git 2.40.0 -> 2.41.0\r\nnot a package line\nwget 1.21 (pinned) -> 1.22\n";
    let packages = parse_outdated_text(out);
    assert_eq!(packages.len(), 2);
    assert_eq!(packages[0].name, "git");
    assert_eq!(packages[0].installed_version, "2.40.0");
    assert_eq!(packages[0].current_version, "2.41.0");
    assert_eq!(packages[1].name, "wget");
    assert_eq!(packages[1].installed_version, "1.21 (pinned)");
    assert_eq!(packages[1].current_version, "1.22");
    assert!(parse_outdated_text("").is_empty());
}

#[test]
fn json_entry_takes_first_installed_version() {
    let p = outdated_from_json_entry(
        "node".to_string(),
        vec!["20.1.0".to_string(), "19.0.0".to_string()],
        "21.0.0".to_string(),
    )
    .unwrap();
    assert_eq!(p.installed_version, "20.1.0");
    assert!(outdated_from_json_entry("x".to_string(), Vec::new(), "1".to_string()).is_none());
}

#[test]
fn update_and_cleanup_states() {
    assert!(!brew_update_changed("abc\n", " abc", ""));
    assert!(brew_update_changed("unknown", "unknown", ""));
    assert!(brew_update_changed("abc", "def", "Updated 2 taps"));
    assert!(!brew_update_changed("abc", "def", "Already up-to-date."));
    assert!(!brew_cleanup_changed("Nothing to clean up"));
    assert!(brew_cleanup_changed("Removing: /opt/x (1MB)"));
}

#[test]
fn upgrade_detection() {
    assert!(upgrade_output_shows_upgrades("==> Upgrading 1 outdated package"));
    assert!(!upgrade_output_shows_upgrades("All formulae and casks are up to date"));
    assert!(brew_upgrade_changed(false, &[pkg("a", "1", "2")]));
    assert!(!brew_upgrade_changed(false, &[]));
    let before = vec![pkg("a", "1", "2"), pkg("b", "3", "4"), pkg("c", "5", "6")];
    let after = vec![pkg("b", "3", "4")];
    let details = upgraded_packages(&before, &after);
    assert_eq!(details.len(), 2);
    assert_eq!(details[0].to_display_string(), "a: 1 → 2");
    assert_eq!(details[1].to_display_string(), "c: 5 → 6");
    assert!(matches!(details[1].upgrade_type, UpgradeType::VersionUpgrade));
}

#[test]
fn brew_step_states() {
    assert_eq!(brew_update(1, "a", "b", ""), StepState::Failed);
    assert_eq!(brew_update(0, "a", "a", ""), StepState::Unchanged);
    assert_eq!(brew_update(0, "a", "b", ""), StepState::Changed);
    assert_eq!(brew_cleanup(2, "Nothing to clean up"), StepState::Failed);
    assert_eq!(brew_cleanup(0, "Nothing to clean up"), StepState::Unchanged);
    assert_eq!(brew_cleanup(0, "Removing /x"), StepState::Changed);
}

#[test]
fn brew_upgrade_outcomes() {
    let before = vec![pkg("a", "1", "2"), pkg("b", "3", "4")];
    let after = vec![pkg("b", "3", "4")];
    let (state, details) = brew_upgrade(0, "", &before, &after);
    assert_eq!(state, StepState::Changed);
    assert_eq!(details.len(), 1);
    assert_eq!(details[0].name, "a");
    let (state, details) = brew_upgrade(1, "==> Upgrading a", &before, &after);
    assert_eq!(state, StepState::Failed);
    assert!(details.is_empty());
    let (state, details) = brew_upgrade(0, "All formulae and casks are up to date", &[], &[]);
    assert_eq!(state, StepState::Unchanged);
    assert!(details.is_empty());
    let (state, _) = brew_upgrade(0, "==> Installing dependencies", &[], &[]);
    assert_eq!(state, StepState::Changed);
}
