use devtool::mise::{
    mise_markers_in, mise_output_has_updates, mise_up, mise_up_state, parse_mise_versions,
    parse_mise_versions_simple, parse_version_line, ToolVersions,
};
use devtool::rustup::ToolchainVersion;
use devtool::tasks::StepState;

#[test]
fn test_parse_mise_versions_tool_at_version() {
    let output = "node@20.11.0\npython@3.11.5";
    let versions = parse_mise_versions(output);
    assert_eq!(versions.get("node"), Some(&"20.11.0".to_string()));
    assert_eq!(versions.get("python"), Some(&"3.11.5".to_string()));
}

#[test]
fn test_parse_mise_versions_space_separated() {
    let output = "node    20.11.0  ~/.tool-versions\npython  3.11.5  ~/.tool-versions";
    let versions = parse_mise_versions(output);
    assert_eq!(versions.get("node"), Some(&"20.11.0".to_string()));
    assert_eq!(versions.get("python"), Some(&"3.11.5".to_string()));
}

#[test]
fn test_parse_mise_versions_empty() {
    let output = "";
    let versions = parse_mise_versions(output);
    assert!(versions.is_empty());
}

#[test]
fn test_parse_mise_versions_json_skipped() {
    let output = r#"{"node": "20.11.0"}"#;
    let versions = parse_mise_versions(output);
    assert!(versions.is_empty());
}

#[test]
fn test_parse_mise_versions_mixed_format() {
    let output = "node@20.11.0\npython  3.11.5  ~/.tool-versions";
    let versions = parse_mise_versions(output);
    assert_eq!(versions.len(), 2);
    assert_eq!(versions.get("node"), Some(&"20.11.0".to_string()));
    assert_eq!(versions.get("python"), Some(&"3.11.5".to_string()));
}

#[test]
fn test_parse_mise_versions_invalid_lines() {
    let output = "\n   \n{}\n\"\"\nnodejs 20.11.0";
    let versions = parse_mise_versions(output);
    assert!(versions.len() <= 1);
    if !versions.is_empty() {
        assert_eq!(versions.get("nodejs"), Some(&"20.11.0".to_string()));
    }
}

#[test]
fn later_line_overrides_earlier_one() {
    let versions = parse_mise_versions("node@18.0.0\r\nnode 20.1.0 ~/x\n");
    assert_eq!(versions.len(), 1);
    assert_eq!(versions.get("node"), Some(&"20.1.0".to_string()));
    assert_eq!(versions.get("python"), None);
}

#[test]
fn version_lines() {
    assert_eq!(
        parse_version_line("  go @ 1.22.0 (missing) ", false),
        Some(("go".to_string(), "1.22.0".to_string()))
    );
    assert_eq!(parse_version_line("go@", false), None);
    assert_eq!(parse_version_line("go latest", false), None);
    assert_eq!(parse_version_line("\"go\" 1.2", false), None);
    assert_eq!(
        parse_version_line("\"go\" 1.2", true),
        Some(("\"go\"".to_string(), "1.2".to_string()))
    );
    assert_eq!(parse_version_line("go 22", true), None);
    assert_eq!(
        parse_version_line("go 22", false),
        Some(("go".to_string(), "22".to_string()))
    );
}

#[test]
fn simple_parse_requires_dotted_versions() {
    let versions = parse_mise_versions_simple("node@20\npython 3.12.1\n{\nruby@3.3.0");
    assert_eq!(versions.len(), 2);
    assert_eq!(versions.get("node"), None);
    assert_eq!(versions.get("ruby"), Some(&"3.3.0".to_string()));
    let usable = versions.usable_versions();
    assert_eq!(usable.len(), 2);
    assert_eq!(usable[0].name, "python");
    assert_eq!(usable[1].version, "3.3.0");
}

#[test]
fn tool_versions_insert_and_usable() {
    let mut v = ToolVersions::new();
    v.insert("a".to_string(), "1".to_string());
    v.insert("b".to_string(), "2.0".to_string());
    v.insert("a".to_string(), "1.5".to_string());
    assert_eq!(v.len(), 2);
    assert_eq!(v.get("a"), Some(&"1.5".to_string()));
    let usable = v.usable_versions();
    assert_eq!(usable.len(), 2);
}

#[test]
fn mise_update_markers_and_state() {
    assert!(mise_output_has_updates("Node: Installed 20.1"));
    assert!(!mise_markers_in("Node: Installed 20.1"));
    assert!(mise_markers_in("node 20 → 21"));
    assert!(!mise_output_has_updates("all tools are current"));
    assert_eq!(mise_up_state(true, 0), StepState::Changed);
    assert_eq!(mise_up_state(true, 1), StepState::Failed);
    assert_eq!(mise_up_state(false, 1), StepState::Unchanged);
}

#[test]
fn mise_up_outcomes() {
    let v = |n: &str, ver: &str| ToolchainVersion {
        name: n.to_string(),
        version: ver.to_string(),
    };
    let before = vec![v("node", "20.1.0")];
    let after = vec![v("node", "20.2.0"), v("go", "1.22.0")];
    let (state, details) = mise_up(0, "node 20.1.0 -> 20.2.0", &before, &after);
    assert_eq!(state, StepState::Changed);
    assert_eq!(details.len(), 2);
    assert_eq!(details[1].to_display_string(), "go: new installation → 1.22.0");
    let (state, details) = mise_up(1, "nothing to do", &before, &after);
    assert_eq!(state, StepState::Unchanged);
    assert!(details.is_empty());
    let (state, _) = mise_up(3, "Installing node", &before, &after);
    assert_eq!(state, StepState::Failed);
}
