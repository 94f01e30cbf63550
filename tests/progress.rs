use devtool::parallel::Tool;
use devtool::progress::SimpleProgressState::{
    Completed, Executing, ExecutingLate, ExecutingMid, Failed, Preparing,
};
use devtool::progress::{SimpleProgressManager, SimpleProgressState};

const ALL: [SimpleProgressState; 6] = [
    SimpleProgressState::Preparing,
    SimpleProgressState::Executing,
    SimpleProgressState::ExecutingMid,
    SimpleProgressState::ExecutingLate,
    SimpleProgressState::Completed,
    SimpleProgressState::Failed,
];

#[test]
fn test_simple_progress_state() {
    assert_eq!(SimpleProgressState::Preparing.progress_percentage(), 0);
    assert_eq!(SimpleProgressState::Executing.progress_percentage(), 25);
    assert_eq!(SimpleProgressState::Completed.progress_percentage(), 100);
    assert_eq!(SimpleProgressState::Failed.progress_percentage(), 100);
}

#[test]
fn test_simple_progress_manager_creation() {
    let manager = SimpleProgressManager::new();
    assert_eq!(manager.progress_bar_count(), 0);
}

#[test]
fn percentages_of_executing_phases() {
    assert_eq!(SimpleProgressState::ExecutingMid.progress_percentage(), 50);
    assert_eq!(SimpleProgressState::ExecutingLate.progress_percentage(), 75);
}

#[test]
fn display_messages() {
    assert_eq!(
        SimpleProgressState::Preparing.display_message("Mise"),
        "Mise 准备中..."
    );
    assert_eq!(
        SimpleProgressState::Executing.display_message("Mise"),
        "Mise 执行中..."
    );
    assert_eq!(
        SimpleProgressState::Completed.display_message("Rustup"),
        "✓ Rustup 完成"
    );
    assert_eq!(
        SimpleProgressState::Failed.display_message("Rustup"),
        "✗ Rustup 失败"
    );
    assert_eq!(
        SimpleProgressState::Executing.final_message("Homebrew"),
        "⏸ Homebrew 中断"
    );
}

fn allowed(from: SimpleProgressState, to: SimpleProgressState) -> bool {
    matches!(
        (from, to),
        (Preparing, Executing)
            | (Executing, ExecutingMid)
            | (Executing, Completed)
            | (Executing, Failed)
            | (ExecutingMid, ExecutingLate)
            | (ExecutingMid, Completed)
            | (ExecutingMid, Failed)
            | (ExecutingLate, Completed)
            | (ExecutingLate, Failed)
    )
}

fn manager_in(state: SimpleProgressState) -> SimpleProgressManager {
    let mut m = SimpleProgressManager::new();
    m.create_progress_bars(&[Tool::Rustup], true);
    let path: &[SimpleProgressState] = match state {
        Preparing => &[],
        Executing => &[Executing],
        ExecutingMid => &[Executing, ExecutingMid],
        ExecutingLate => &[Executing, ExecutingMid, ExecutingLate],
        Completed => &[Executing, Completed],
        Failed => &[Executing, Failed],
    };
    for s in path {
        assert!(m.update_state(&Tool::Rustup, *s));
    }
    m
}

#[test]
fn transition_table_is_applied() {
    for from in ALL {
        for to in ALL {
            let mut m = manager_in(from);
            let accepted = m.update_state(&Tool::Rustup, to);
            assert_eq!(accepted, allowed(from, to), "{:?} -> {:?}", from, to);
            assert_eq!(from.can_transition_to(&to), allowed(from, to));
            let expected = if accepted { to } else { from };
            assert_eq!(m.state_of(&Tool::Rustup), Some(expected));
        }
    }
}

#[test]
fn terminal_states_reject_everything() {
    for from in [SimpleProgressState::Completed, SimpleProgressState::Failed] {
        assert!(from.is_terminal());
        for to in ALL {
            let mut m = manager_in(from);
            assert!(!m.update_state(&Tool::Rustup, to));
            assert_eq!(m.state_of(&Tool::Rustup), Some(from));
            assert!(m.has_progress_bar(&Tool::Rustup));
        }
    }
}

#[test]
fn backward_transition_is_rejected() {
    let mut m = SimpleProgressManager::new();
    m.create_progress_bars(&[Tool::Homebrew], true);
    assert!(m.update_state(&Tool::Homebrew, SimpleProgressState::Executing));
    assert!(!m.update_state(&Tool::Homebrew, SimpleProgressState::Preparing));
    assert_eq!(
        m.state_of(&Tool::Homebrew),
        Some(SimpleProgressState::Executing)
    );
}

#[test]
fn registration_is_idempotent_and_tracks_non_interactive_runs() {
    let mut m = SimpleProgressManager::new();
    let created = m.create_progress_bars(&[Tool::Mise, Tool::Homebrew, Tool::Mise], true);
    assert_eq!(created, vec![Tool::Homebrew, Tool::Mise]);
    assert!(m.update_state(&Tool::Mise, SimpleProgressState::Executing));
    let again = m.create_progress_bars(&[Tool::Mise], true);
    assert!(again.is_empty());
    assert_eq!(m.state_of(&Tool::Mise), Some(SimpleProgressState::Executing));
    assert_eq!(m.progress_bar_count(), 2);

    let quiet = m.create_progress_bars(&[Tool::Rustup], false);
    assert!(quiet.is_empty());
    assert!(!m.has_progress_bar(&Tool::Rustup));
    assert_eq!(m.state_of(&Tool::Rustup), Some(SimpleProgressState::Preparing));
    assert!(!SimpleProgressManager::new().update_state(&Tool::Rustup, SimpleProgressState::Executing));
}

#[test]
fn finalize_reports_terminal_or_interrupted() {
    let mut m = SimpleProgressManager::new();
    m.create_progress_bars(&[Tool::Homebrew, Tool::Rustup, Tool::Mise], true);
    m.update_state(&Tool::Homebrew, SimpleProgressState::Executing);
    m.update_state(&Tool::Homebrew, SimpleProgressState::Completed);
    m.update_state(&Tool::Rustup, SimpleProgressState::Executing);
    m.update_state(&Tool::Rustup, SimpleProgressState::Failed);
    m.update_state(&Tool::Mise, SimpleProgressState::Executing);
    assert_eq!(
        m.finalize_all(),
        vec![
            (Tool::Homebrew, "✓ Homebrew 完成".to_string()),
            (Tool::Rustup, "✗ Rustup 失败".to_string()),
            (Tool::Mise, "⏸ Mise 中断".to_string()),
        ]
    );
}
