//! The outcome of one tool's update task, decided from the states of the
//! steps it ran.
use vstd::prelude::*;
use vstd::string::*;
use crate::parallel::{TaskResult, Tool, display_name_of};

verus! {

/// How one step of an update ended.
#[derive(Debug, Clone, Copy, PartialEq, Eq, Structural)]
pub enum StepState {
    Changed,
    Unchanged,
    Failed,
}

impl StepState {
    /// `changed`, `unchanged` or `failed`.
    pub fn as_str(&self) -> (r: &'static str)
        ensures
            r@ == match *self {
                StepState::Changed => "changed"@,
                StepState::Unchanged => "unchanged"@,
                StepState::Failed => "failed"@,
            },
    {
        match self {
            StepState::Changed => "changed",
            StepState::Unchanged => "unchanged",
            StepState::Failed => "failed",
        }
    }
}

/// The message of a task: whether the tool was updated or already latest.
pub open spec fn task_message_of(tool: Tool, changed: bool) -> Seq<char> {
    if changed {
        display_name_of(tool) + " updated"@
    } else {
        display_name_of(tool) + " already latest"@
    }
}

/// The outcome of the update task of `tool` whose steps ended in `steps`:
/// it succeeds when no step failed, and reports an update when some step
/// changed something.
pub fn task_result_for(tool: Tool, steps: &[StepState]) -> (r: TaskResult)
    ensures
        r.tool == tool,
        r.success == forall|i: int| 0 <= i < steps@.len() ==> steps@[i] != StepState::Failed,
        r.output@ == task_message_of(
            tool,
            exists|i: int| 0 <= i < steps@.len() && steps@[i] == StepState::Changed,
        ),
{
    let mut success = true;
    let mut changed = false;
    let mut i: usize = 0;
    while i < steps.len()
        invariant
            i <= steps@.len(),
            success == forall|k: int| 0 <= k < i ==> steps@[k] != StepState::Failed,
            changed == exists|k: int| 0 <= k < i && steps@[k] == StepState::Changed,
        decreases steps.len() - i,
    {
        if steps[i] == StepState::Failed {
            success = false;
        }
        if steps[i] == StepState::Changed {
            changed = true;
        }
        i = i + 1;
    }
    let name = String::from_str(tool.display_name());
    let output = if changed {
        name.concat(" updated")
    } else {
        name.concat(" already latest")
    };
    TaskResult { tool, success, output }
}

/// The outcome of a task that only shows what it would run.
pub fn dry_run_result(tool: Tool) -> (r: TaskResult)
    ensures
        r.tool == tool,
        r.success,
        r.output@ == display_name_of(tool) + " (dry run)"@,
{
    TaskResult { tool, success: true, output: String::from_str(tool.display_name()).concat(" (dry run)") }
}

/// The outcome of a task that ended abnormally, with the reason as message.
pub fn aborted_result(tool: Tool, reason: String) -> (r: TaskResult)
    ensures
        r.tool == tool,
        !r.success,
        r.output == reason,
{
    TaskResult { tool, success: false, output: reason }
}

pub open spec fn tool_description_of(t: Tool) -> Seq<char> {
    match t {
        Tool::Homebrew => "Homebrew update & upgrade & cleanup"@,
        Tool::Rustup => "Rustup all toolchains update"@,
        Tool::Mise => "Mise tools update"@,
    }
}

/// What the update of `tool` does, in words.
pub fn get_tool_description(tool: &Tool) -> (r: String)
    ensures
        r@ == tool_description_of(*tool),
{
    match tool {
        Tool::Homebrew => String::from_str("Homebrew update & upgrade & cleanup"),
        Tool::Rustup => String::from_str("Rustup all toolchains update"),
        Tool::Mise => String::from_str("Mise tools update"),
    }
}

} // verus!
