use devtool::rustup::{
    detect_output_indicators, detect_version_changes, determine_upgrade_status,
    extract_rust_version, output_indicates_update, rustup_update_outcome, version_change_details,
    ToolchainVersion, rustup_update, toolchain_of_line,
};
use devtool::tasks::StepState;

fn tc(name: &str, version: &str) -> ToolchainVersion {
    ToolchainVersion {
        name: name.to_string(),
        version: version.to_string(),
    }
}

#[test]
fn test_extract_rust_version() {
    let output = "rustc 1.70.0 (90c541806 2023-05-31)";
    let result = extract_rust_version(output);
    assert_eq!(result, Some("1.70.0".to_string()));
}

#[test]
fn test_extract_rust_version_invalid() {
    let output = "1.70.0 (90c541806 2023-05-31)";
    let result = extract_rust_version(output);
    assert_eq!(result, None);
}

#[test]
fn test_extract_rust_version_with_beta() {
    let output = "rustc 1.71.0-beta.1 (a2b1646c 2023-06-03)";
    let result = extract_rust_version(output);
    assert_eq!(result, Some("1.71.0-beta.1".to_string()));
}

#[test]
fn test_extract_rust_version_empty() {
    let output = "";
    let result = extract_rust_version(output);
    assert_eq!(result, None);
}

#[test]
fn extract_rust_version_needs_a_second_word() {
    assert_eq!(extract_rust_version("rustc"), None);
    assert_eq!(
        extract_rust_version("  rustc\t 1.80.1\n"),
        None,
        "a line that does not begin with rustc yields nothing"
    );
    assert_eq!(
        extract_rust_version("rustc\t 1.80.1\n"),
        Some("1.80.1".to_string())
    );
}

#[test]
fn test_detect_version_changes_with_version_upgrade() {
    let before = vec![tc("stable", "1.70.0")];
    let after = vec![tc("stable", "1.71.0")];
    assert!(detect_version_changes(&before, &after));
}

#[test]
fn test_detect_version_changes_with_new_installation() {
    let before = vec![tc("stable", "1.70.0")];
    let after = vec![tc("stable", "1.70.0"), tc("nightly", "1.72.0")];
    assert!(detect_version_changes(&before, &after));
}

#[test]
fn test_detect_version_changes_no_changes() {
    let before = vec![tc("stable", "1.70.0")];
    let after = vec![tc("stable", "1.70.0")];
    assert!(!detect_version_changes(&before, &after));
}

#[test]
fn removed_toolchain_is_no_change() {
    let before = vec![tc("stable", "1.70.0"), tc("beta", "1.71.0")];
    let after = vec![tc("stable", "1.70.0")];
    assert!(!detect_version_changes(&before, &after));
}

#[test]
fn test_detect_output_indicators_with_updates() {
    let output = "info: downloading component 'rustc' for 'stable-x86_64-apple-darwin'\ninfo: installing component 'rustc' for 'stable-x86_64-apple-darwin'";
    assert!(detect_output_indicators(output));
}

#[test]
fn test_detect_output_indicators_with_arrows() {
    let output = "stable-x86_64-apple-darwin updated -> 1.71.0";
    assert!(detect_output_indicators(output));
}

#[test]
fn test_detect_output_indicators_no_updates() {
    let output = "info: all toolchains are up to date";
    assert!(!detect_output_indicators(output));
}

#[test]
fn output_indicators_ignore_letter_case() {
    assert!(detect_output_indicators("Stable UPDATED"));
    assert!(!detect_output_indicators("Stable UNCHANGED - rustc 1.80.0"));
    assert!(!output_indicates_update("Stable UPDATED"));
}

#[test]
fn output_indicators_from_and_to() {
    assert!(output_indicates_update("moved from 1.0 to 1.1"));
    assert!(!output_indicates_update("moved from 1.0"));
    assert!(output_indicates_update("1.0 → 1.1"));
    assert!(!output_indicates_update(""));
}

#[test]
fn test_determine_upgrade_status_with_version_changes() {
    let before = vec![tc("stable", "1.70.0")];
    let after = vec![tc("stable", "1.71.0")];
    let output = "info: all toolchains are up to date";
    assert!(determine_upgrade_status(&before, &after, output));
}

#[test]
fn test_determine_upgrade_status_with_output_indicators() {
    let before = vec![tc("stable", "1.70.0")];
    let after = vec![tc("stable", "1.70.0")];
    let output = "info: downloading component 'rustc'";
    assert!(determine_upgrade_status(&before, &after, output));
}

#[test]
fn test_determine_upgrade_status_no_changes() {
    let before = vec![tc("stable", "1.70.0")];
    let after = vec![tc("stable", "1.70.0")];
    let output = "info: all toolchains are up to date";
    assert!(!determine_upgrade_status(&before, &after, output));
}

#[test]
fn version_change_details_list_upgrades_then_installs() {
    let before = vec![tc("stable", "1.70.0"), tc("beta", "1.71.0"), tc("old", "1.0.0")];
    let after = vec![
        tc("nightly", "1.73.0"),
        tc("beta", "1.72.0"),
        tc("stable", "1.70.0"),
    ];
    let details = version_change_details(&before, &after);
    let texts: Vec<String> = details.iter().map(|d| d.to_display_string()).collect();
    assert_eq!(
        texts,
        vec![
            "beta: 1.71.0 → 1.72.0".to_string(),
            "nightly: new installation → 1.73.0".to_string()
        ]
    );
}

#[test]
fn rustup_outcome_without_update_has_no_details() {
    let before = vec![tc("stable", "1.70.0")];
    let (changed, details) = rustup_update_outcome(&before, &before, "info: all toolchains are up to date");
    assert!(!changed);
    assert!(details.is_empty());
    let after = vec![tc("stable", "1.71.0")];
    let (changed, details) = rustup_update_outcome(&before, &after, "");
    assert!(changed);
    assert_eq!(details.len(), 1);
    assert_eq!(details[0].old_version, "1.70.0");
}

#[test]
fn rustup_update_states() {
    let before = vec![tc("stable", "1.70.0")];
    let after = vec![tc("stable", "1.71.0")];
    let (state, details) = rustup_update(1, &before, &after, "");
    assert_eq!(state, StepState::Failed);
    assert!(details.is_empty());
    let (state, details) = rustup_update(0, &before, &after, "");
    assert_eq!(state, StepState::Changed);
    assert_eq!(details[0].to_display_string(), "stable: 1.70.0 → 1.71.0");
    let (state, details) = rustup_update(0, &before, &before, "all up to date");
    assert_eq!(state, StepState::Unchanged);
    assert!(details.is_empty());
}

#[test]
fn toolchain_lines() {
    assert_eq!(
        toolchain_of_line("stable-aarch64-apple-darwin (default)"),
        Some("stable-aarch64-apple-darwin".to_string())
    );
    assert_eq!(toolchain_of_line("installed toolchains"), None);
    assert_eq!(
        toolchain_of_line("  nightly-x86_64-unknown-linux-gnu"),
        Some("nightly-x86_64-unknown-linux-gnu".to_string())
    );
}
