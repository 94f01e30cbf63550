use devtool::parallel::Tool;
use devtool::tasks::{aborted_result, dry_run_result, get_tool_description, task_result_for, StepState};

#[test]
fn task_results_from_steps() {
    let r = task_result_for(
        Tool::Homebrew,
        &[StepState::Unchanged, StepState::Changed, StepState::Unchanged],
    );
    assert!(r.success);
    assert_eq!(r.output, "Homebrew updated");
    let r = task_result_for(Tool::Rustup, &[StepState::Unchanged]);
    assert!(r.success);
    assert_eq!(r.output, "Rustup already latest");
    let r = task_result_for(Tool::Mise, &[StepState::Changed, StepState::Failed]);
    assert!(!r.success);
    assert_eq!(r.tool, Tool::Mise);
    assert_eq!(StepState::Failed.as_str(), "failed");
}

#[test]
fn special_results() {
    let d = dry_run_result(Tool::Mise);
    assert!(d.success);
    assert_eq!(d.output, "Mise (dry run)");
    let a = aborted_result(Tool::Rustup, "Rustup failed: boom".to_string());
    assert!(!a.success);
    assert_eq!(a.output, "Rustup failed: boom");
    assert_eq!(get_tool_description(&Tool::Rustup), "Rustup all toolchains update");
    assert_eq!(
        get_tool_description(&Tool::Homebrew),
        "Homebrew update & upgrade & cleanup"
    );
}
