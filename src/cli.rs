//! The command line of the program, as plain values.
use vstd::prelude::*;

verus! {

/// A shell for which completions can be generated.
#[derive(Clone, Copy, Debug, PartialEq, Eq, Structural)]
pub enum ShellType {
    Bash,
    Zsh,
    Fish,
    Powershell,
    Elvish,
    Nushell,
}

/// What a piece of feedback is about.
#[derive(Clone, Copy, Debug, PartialEq, Eq, Structural)]
pub enum FeedbackType {
    Bug,
    Feature,
    Ux,
    Performance,
    Documentation,
    Other,
}

/// A subcommand.
#[derive(Debug)]
pub enum Commands {
    /// Update the tools, the default.
    Update {
        dry_run: bool,
        verbose: bool,
        no_color: bool,
        keep_logs: bool,
        parallel: bool,
        sequential: bool,
        jobs: usize,
        no_banner: bool,
        compact: bool,
    },
    /// Print a completion script.
    Completion { shell: ShellType },
    /// Show the progress states.
    ProgressStatus,
    /// Collect feedback.
    Feedback { feedback_type: Option<FeedbackType>, message: Option<String>, verbose: bool },
}

/// The parsed command line.
#[derive(Debug)]
pub struct Args {
    pub command: Option<Commands>,
}

impl Commands {
    /// The update command with every option at its default.
    pub fn default_update() -> (r: Commands)
        ensures
            r == (Commands::Update {
                dry_run: false,
                verbose: false,
                no_color: false,
                keep_logs: false,
                parallel: true,
                sequential: false,
                jobs: 3,
                no_banner: false,
                compact: false,
            }),
    {
        Commands::Update {
            dry_run: false,
            verbose: false,
            no_color: false,
            keep_logs: false,
            parallel: true,
            sequential: false,
            jobs: 3,
            no_banner: false,
            compact: false,
        }
    }
}

/// Whether an update with these options runs its tools one after another.
pub fn runs_sequentially(parallel: bool, sequential: bool) -> (r: bool)
    ensures
        r == (sequential || !parallel),
{
    sequential || !parallel
}

} // verus!
