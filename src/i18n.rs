//! The user-facing strings of an update run, in Chinese or English.
use vstd::prelude::*;
use vstd::string::*;
use crate::text::same_text;

verus! {

/// The strings of one language.
#[derive(Debug, Clone)]
pub struct LocalizedStrings {
    pub banner: String,
    pub steps_count: String,
    pub progress_preparing: String,
    pub progress_complete: String,
    pub update_complete: String,
    pub time_taken: String,
    pub no_updates: String,
    pub actions_executed: String,
    pub already_latest: String,
    pub step_homebrew_update: String,
    pub step_homebrew_upgrade: String,
    pub step_cleanup: String,
    pub step_rust_update: String,
    pub step_mise_update: String,
}

impl LocalizedStrings {
    /// The Chinese strings for `zh`, the English strings for any other code.
    pub fn new(lang: &str) -> (r: Self)
        ensures
            r.banner@ == if lang@ == "zh"@ {
                "🚀 开始 devtool 更新："@
            } else {
                "🚀 Starting devtool update: "@
            },
            r.steps_count@ == if lang@ == "zh"@ {
                "将执行 {} 个步骤："@
            } else {
                "Will execute {} steps:"@
            },
            r.progress_preparing@ == if lang@ == "zh"@ {
                "准备开始"@
            } else {
                "Preparing to start"@
            },
            r.progress_complete@ == if lang@ == "zh"@ {
                "完成"@
            } else {
                "Complete"@
            },
            r.update_complete@ == if lang@ == "zh"@ {
                "🎉 更新完成："@
            } else {
                "🎉 Update completed: "@
            },
            r.time_taken@ == if lang@ == "zh"@ {
                "耗时"@
            } else {
                "Time taken"@
            },
            r.no_updates@ == if lang@ == "zh"@ {
                "ℹ️ 无更新应用。"@
            } else {
                "ℹ️ No updates applied."@
            },
            r.actions_executed@ == if lang@ == "zh"@ {
                "🛠️ 已执行动作："@
            } else {
                "🛠️ Actions executed: "@
            },
            r.already_latest@ == if lang@ == "zh"@ {
                "⚠️ 已是最新："@
            } else {
                "⚠️ Already latest: "@
            },
            r.step_homebrew_update@ == if lang@ == "zh"@ {
                "Homebrew：更新索引"@
            } else {
                "Homebrew: Update index"@
            },
            r.step_homebrew_upgrade@ == if lang@ == "zh"@ {
                "Homebrew：升级软件包"@
            } else {
                "Homebrew: Upgrade packages"@
            },
            r.step_cleanup@ == if lang@ == "zh"@ {
                "Action：清理旧版本"@
            } else {
                "Action: Cleanup old versions"@
            },
            r.step_rust_update@ == if lang@ == "zh"@ {
                "Rust：更新 stable 工具链"@
            } else {
                "Rust: Update stable toolchain"@
            },
            r.step_mise_update@ == if lang@ == "zh"@ {
                "Mise：更新托管工具"@
            } else {
                "Mise: Update managed tools"@
            },
    {
        if same_text(lang, "zh") {
            LocalizedStrings {
                banner: String::from_str("🚀 开始 devtool 更新："),
                steps_count: String::from_str("将执行 {} 个步骤："),
                progress_preparing: String::from_str("准备开始"),
                progress_complete: String::from_str("完成"),
                update_complete: String::from_str("🎉 更新完成："),
                time_taken: String::from_str("耗时"),
                no_updates: String::from_str("ℹ️ 无更新应用。"),
                actions_executed: String::from_str("🛠️ 已执行动作："),
                already_latest: String::from_str("⚠️ 已是最新："),
                step_homebrew_update: String::from_str("Homebrew：更新索引"),
                step_homebrew_upgrade: String::from_str("Homebrew：升级软件包"),
                step_cleanup: String::from_str("Action：清理旧版本"),
                step_rust_update: String::from_str("Rust：更新 stable 工具链"),
                step_mise_update: String::from_str("Mise：更新托管工具"),
            }
        } else {
            LocalizedStrings {
                banner: String::from_str("🚀 Starting devtool update: "),
                steps_count: String::from_str("Will execute {} steps:"),
                progress_preparing: String::from_str("Preparing to start"),
                progress_complete: String::from_str("Complete"),
                update_complete: String::from_str("🎉 Update completed: "),
                time_taken: String::from_str("Time taken"),
                no_updates: String::from_str("ℹ️ No updates applied."),
                actions_executed: String::from_str("🛠️ Actions executed: "),
                already_latest: String::from_str("⚠️ Already latest: "),
                step_homebrew_update: String::from_str("Homebrew: Update index"),
                step_homebrew_upgrade: String::from_str("Homebrew: Upgrade packages"),
                step_cleanup: String::from_str("Action: Cleanup old versions"),
                step_rust_update: String::from_str("Rust: Update stable toolchain"),
                step_mise_update: String::from_str("Mise: Update managed tools"),
            }
        }
    }
}

} // verus!
