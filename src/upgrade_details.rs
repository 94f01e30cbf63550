//! Records of what an update changed, package by package, and their text
//! forms.
use vstd::prelude::*;
use vstd::string::*;
use crate::text::{
    contains_str, find_char, first_position, has_substring, lines, split_lines, trim_text, trimmed,
};

verus! {

/// How a package changed.
#[derive(Debug, Clone, Copy, PartialEq, Eq, Structural)]
pub enum UpgradeType {
    VersionUpgrade,
    NewInstallation,
    Downgrade,
}

/// One package that an update changed.
#[derive(Debug, Clone)]
pub struct UpgradeDetail {
    pub name: String,
    pub old_version: String,
    pub new_version: String,
    pub upgrade_type: UpgradeType,
}

/// The old version recorded for a package that was not installed before.
pub open spec fn not_installed() -> Seq<char> {
    "未安装"@
}

/// `name: old → new`, or `name: new installation → new`.
pub open spec fn legacy_text(d: UpgradeDetail) -> Seq<char> {
    match d.upgrade_type {
        UpgradeType::NewInstallation => d.name@ + ": new installation → "@ + d.new_version@,
        _ => d.name@ + ": "@ + d.old_version@ + " → "@ + d.new_version@,
    }
}

/// The legacy text, with a downgrade marked as such.
pub open spec fn display_text(d: UpgradeDetail) -> Seq<char> {
    match d.upgrade_type {
        UpgradeType::Downgrade => legacy_text(d) + " (降级)"@,
        _ => legacy_text(d),
    }
}

/// The release channel that a toolchain name mentions, checked in the order
/// stable, beta, nightly; empty when it mentions none.
pub open spec fn toolchain_type_of(name: Seq<char>) -> Seq<char> {
    if has_substring(name, "stable"@) {
        "stable"@
    } else if has_substring(name, "beta"@) {
        "beta"@
    } else if has_substring(name, "nightly"@) {
        "nightly"@
    } else {
        Seq::empty()
    }
}

/// The display text, preceded by `[channel] ` when the name mentions one.
pub open spec fn enhanced_text(d: UpgradeDetail) -> Seq<char> {
    let t = toolchain_type_of(d.name@);
    if t.len() == 0 {
        display_text(d)
    } else {
        "["@ + t + "] "@ + display_text(d)
    }
}

impl UpgradeDetail {
    /// A package that went from `old_version` to `new_version`.
    pub fn version_upgrade(name: String, old_version: String, new_version: String) -> (r: Self)
        ensures
            r.name == name,
            r.old_version == old_version,
            r.new_version == new_version,
            r.upgrade_type == UpgradeType::VersionUpgrade,
    {
        UpgradeDetail { name, old_version, new_version, upgrade_type: UpgradeType::VersionUpgrade }
    }

    /// A package that was installed at `version`.
    pub fn new_installation(name: String, version: String) -> (r: Self)
        ensures
            r.name == name,
            r.old_version@ == not_installed(),
            r.new_version == version,
            r.upgrade_type == UpgradeType::NewInstallation,
    {
        UpgradeDetail {
            name,
            old_version: String::from_str("未安装"),
            new_version: version,
            upgrade_type: UpgradeType::NewInstallation,
        }
    }

    /// A package that went back from `old_version` to `new_version`.
    pub fn downgrade(name: String, old_version: String, new_version: String) -> (r: Self)
        ensures
            r.name == name,
            r.old_version == old_version,
            r.new_version == new_version,
            r.upgrade_type == UpgradeType::Downgrade,
    {
        UpgradeDetail { name, old_version, new_version, upgrade_type: UpgradeType::Downgrade }
    }

    /// The text shown to the user.
    pub fn to_display_string(&self) -> (r: String)
        ensures
            r@ == display_text(*self),
    {
        let s = self.to_legacy_string();
        match self.upgrade_type {
            UpgradeType::Downgrade => s.concat(" (降级)"),
            _ => s,
        }
    }

    /// The text of the legacy line format, which does not mark downgrades.
    pub fn to_legacy_string(&self) -> (r: String)
        ensures
            r@ == legacy_text(*self),
    {
        match self.upgrade_type {
            UpgradeType::NewInstallation => self.name.clone().concat(": new installation → ").concat(
                self.new_version.as_str(),
            ),
            _ => self.name.clone().concat(": ").concat(self.old_version.as_str()).concat(
                " → ",
            ).concat(self.new_version.as_str()),
        }
    }

    /// The display text, preceded by the release channel of a toolchain.
    pub fn to_enhanced_string(&self) -> (r: String)
        ensures
            r@ == enhanced_text(*self),
    {
        let toolchain_type = self.get_toolchain_type();
        let text = self.to_display_string();
        if toolchain_type.unicode_len() == 0 {
            text
        } else {
            String::from_str("[").concat(toolchain_type.as_str()).concat("] ").concat(text.as_str())
        }
    }

    /// The release channel that the name mentions, or an empty string.
    pub fn get_toolchain_type(&self) -> (r: String)
        ensures
            r@ == toolchain_type_of(self.name@),
    {
        let name = self.name.as_str();
        if contains_str(name, "stable") {
            String::from_str("stable")
        } else if contains_str(name, "beta") {
            String::from_str("beta")
        } else if contains_str(name, "nightly") {
            String::from_str("nightly")
        } else {
            String::new()
        }
    }
}

/// A detail seen through the views of its texts.
pub open spec fn view_of(d: UpgradeDetail) -> (Seq<char>, Seq<char>, Seq<char>, UpgradeType) {
    (d.name@, d.old_version@, d.new_version@, d.upgrade_type)
}

/// The detail that a line of the legacy text declares: `name: old → new`,
/// or `name: new installation → version`, each part trimmed. The name ends
/// at the first colon and the versions are split at the first arrow.
pub open spec fn legacy_entry(line: Seq<char>) -> Option<(Seq<char>, Seq<char>, Seq<char>, UpgradeType)> {
    let t = trimmed(line);
    if t.len() == 0 || !t.contains(':') {
        None
    } else {
        let k = choose|k: int| first_position(t, ':', k);
        let name = trimmed(t.subrange(0, k));
        let rest = t.subrange(k + 1, t.len() as int);
        if !rest.contains('→') {
            None
        } else {
            let b = choose|b: int| first_position(rest, '→', b);
            let after = trimmed(rest.subrange(b + 1, rest.len() as int));
            if has_substring(rest, "new installation"@) {
                Some((name, not_installed(), after, UpgradeType::NewInstallation))
            } else {
                Some((name, trimmed(rest.subrange(0, b)), after, UpgradeType::VersionUpgrade))
            }
        }
    }
}

/// The details that the first `n` lines declare, in order.
pub open spec fn legacy_upto(ls: Seq<Seq<char>>, n: int) -> Seq<(Seq<char>, Seq<char>, Seq<char>, UpgradeType)>
    decreases n,
{
    if n <= 0 || n > ls.len() {
        Seq::empty()
    } else {
        match legacy_entry(ls[n - 1]) {
            Some(e) => legacy_upto(ls, n - 1).push(e),
            None => legacy_upto(ls, n - 1),
        }
    }
}

fn parse_legacy_line(line: &str) -> (r: Option<UpgradeDetail>)
    ensures
        match r {
            Some(d) => legacy_entry(line@) == Some(view_of(d)),
            None => legacy_entry(line@) is None,
        },
{
    let t = trim_text(line);
    let ts = t.as_str();
    let n = ts.unicode_len();
    if n == 0 {
        return None;
    }
    let k = match find_char(ts, ':') {
        Some(k) => k,
        None => return None,
    };
    proof {
        assert(t@.contains(':')) by {
            assert(t@[k as int] == ':');
        }
        let k2 = choose|k2: int| first_position(t@, ':', k2);
        if k2 < k {
            assert(t@[k2] != ':');
        }
        if k2 > k {
            assert(t@[k as int] != ':');
        }
    }
    let name = trim_text(ts.substring_char(0, k));
    let rest = ts.substring_char(k + 1, n);
    let m = rest.unicode_len();
    let b = match find_char(rest, '→') {
        Some(b) => b,
        None => return None,
    };
    proof {
        assert(rest@.contains('→')) by {
            assert(rest@[b as int] == '→');
        }
        let b2 = choose|b2: int| first_position(rest@, '→', b2);
        if b2 < b {
            assert(rest@[b2] != '→');
        }
        if b2 > b {
            assert(rest@[b as int] != '→');
        }
    }
    let after = trim_text(rest.substring_char(b + 1, m));
    if contains_str(rest, "new installation") {
        Some(UpgradeDetail::new_installation(name, after))
    } else {
        let before = trim_text(rest.substring_char(0, b));
        Some(UpgradeDetail::version_upgrade(name, before, after))
    }
}

/// The details that the legacy text declares, one per line that has the
/// legacy form; other lines are skipped.
pub fn parse_legacy_text(content: &str) -> (r: Vec<UpgradeDetail>)
    ensures
        r@.map_values(|d: UpgradeDetail| view_of(d)) == legacy_upto(
            lines(content@),
            lines(content@).len() as int,
        ),
{
    let ls = split_lines(content);
    let ghost lv = lines(content@);
    let mut r: Vec<UpgradeDetail> = Vec::new();
    let mut i: usize = 0;
    while i < ls.len()
        invariant
            i <= ls@.len(),
            lv.len() == ls@.len(),
            forall|k: int| 0 <= k < ls@.len() ==> #[trigger] ls@[k]@ == lv[k],
            r@.map_values(|d: UpgradeDetail| view_of(d)) == legacy_upto(lv, i as int),
        decreases ls.len() - i,
    {
        assert(ls@[i as int]@ == lv[i as int]);
        let ghost prev = r@.map_values(|d: UpgradeDetail| view_of(d));
        match parse_legacy_line(ls[i].as_str()) {
            Some(d) => {
                r.push(d);
                assert(r@.map_values(|d: UpgradeDetail| view_of(d)) =~= prev.push(view_of(r@.last())));
            },
            None => {},
        }
        i = i + 1;
    }
    r
}

/// How many details of `s` are of type `t`.
pub open spec fn count_of_type(s: Seq<UpgradeDetail>, t: UpgradeType) -> nat
    decreases s.len(),
{
    if s.len() == 0 {
        0
    } else {
        count_of_type(s.drop_last(), t) + if s.last().upgrade_type == t {
            1nat
        } else {
            0nat
        }
    }
}

/// The group of a toolchain channel: stable, beta, nightly, or any other.
pub open spec fn in_group(d: UpgradeDetail, group: Seq<char>) -> bool {
    toolchain_type_of(d.name@) == group
}

/// The indented enhanced lines of the first `n` details of `s` that belong
/// to `group`, each ended by a line break.
pub open spec fn group_lines(s: Seq<UpgradeDetail>, group: Seq<char>, n: int) -> Seq<char>
    decreases n,
{
    if n <= 0 || n > s.len() {
        Seq::empty()
    } else if in_group(s[n - 1], group) {
        group_lines(s, group, n - 1) + "  "@ + enhanced_text(s[n - 1]) + "\n"@
    } else {
        group_lines(s, group, n - 1)
    }
}

/// The section of `group`: its heading line, its lines and, unless it is
/// the last section, a blank line; nothing when no detail belongs to it.
pub open spec fn group_section(s: Seq<UpgradeDetail>, group: Seq<char>, heading: Seq<char>, last: bool) -> Seq<char> {
    if exists|i: int| 0 <= i < s.len() && in_group(#[trigger] s[i], group) {
        heading + "\n"@ + group_lines(s, group, s.len() as int) + if last {
            Seq::empty()
        } else {
            "\n"@
        }
    } else {
        Seq::empty()
    }
}

/// The details grouped by release channel: the stable, beta and nightly
/// toolchains, then the others.
pub open spec fn grouped_text(s: Seq<UpgradeDetail>) -> Seq<char> {
    group_section(s, "stable"@, "Stable 工具链:"@, false) + group_section(
        s,
        "beta"@,
        "Beta 工具链:"@,
        false,
    ) + group_section(s, "nightly"@, "Nightly 工具链:"@, false) + group_section(
        s,
        Seq::empty(),
        "其他工具链:"@,
        true,
    )
}

/// The details that an update of one tool produced.
#[derive(Debug)]
pub struct UpgradeDetails {
    pub tool_name: String,
    pub details: Vec<UpgradeDetail>,
    pub timestamp: String,
    pub total_count: usize,
}

/// Relies on `chrono::Local::now` and its `format`: the local time now, as
/// `year-month-day hour:minute:second`. Nothing is promised of the value.
#[verifier::external_body]
fn local_timestamp() -> (r: String) {
    chrono::Local::now().format("%Y-%m-%d %H:%M:%S").to_string()
}

impl UpgradeDetails {
    /// The count matches the list.
    pub open spec fn wf(&self) -> bool {
        self.total_count == self.details@.len()
    }

    /// An empty collection for `tool_name`, stamped with the local time.
    pub fn new(tool_name: String) -> (r: Self)
        ensures
            r.wf(),
            r.tool_name == tool_name,
            r.details@ == Seq::<UpgradeDetail>::empty(),
    {
        UpgradeDetails { tool_name, details: Vec::new(), timestamp: local_timestamp(), total_count: 0 }
    }

    /// The collection that a legacy text file holds, for a tool whose name
    /// the text does not give.
    pub fn from_legacy_text(content: &str) -> (r: Self)
        ensures
            r.wf(),
            r.tool_name@ == "unknown"@,
            r.details@.map_values(|d: UpgradeDetail| view_of(d)) == legacy_upto(
                lines(content@),
                lines(content@).len() as int,
            ),
    {
        let mut r = UpgradeDetails::new(String::from_str("unknown"));
        r.add_details(parse_legacy_text(content));
        assert(r.details@ =~= Seq::<UpgradeDetail>::empty() + r.details@);
        r
    }

    /// Appends one detail.
    pub fn add_detail(&mut self, detail: UpgradeDetail)
        ensures
            final(self).wf(),
            final(self).details@ == old(self).details@.push(detail),
            final(self).tool_name == old(self).tool_name,
            final(self).timestamp == old(self).timestamp,
    {
        self.details.push(detail);
        self.total_count = self.details.len();
    }

    /// Appends `details`, in their order.
    pub fn add_details(&mut self, details: Vec<UpgradeDetail>)
        ensures
            final(self).wf(),
            final(self).details@ == old(self).details@ + details@,
            final(self).tool_name == old(self).tool_name,
            final(self).timestamp == old(self).timestamp,
    {
        let mut details = details;
        self.details.append(&mut details);
        self.total_count = self.details.len();
    }

    /// Whether any package changed.
    pub fn has_upgrades(&self) -> (r: bool)
        ensures
            r == (self.details@.len() > 0),
    {
        self.details.len() > 0
    }

    /// The number of changed packages.
    pub fn upgrade_count(&self) -> (r: usize)
        ensures
            r == self.details@.len(),
    {
        self.details.len()
    }

    fn count_type(&self, t: UpgradeType) -> (r: usize)
        ensures
            r == count_of_type(self.details@, t),
    {
        let mut n: usize = 0;
        let mut i: usize = 0;
        while i < self.details.len()
            invariant
                i <= self.details@.len(),
                n == count_of_type(self.details@.subrange(0, i as int), t),
                n <= i,
            decreases self.details.len() - i,
        {
            assert(self.details@.subrange(0, i + 1).drop_last() =~= self.details@.subrange(
                0,
                i as int,
            ));
            if self.details[i].upgrade_type == t {
                n = n + 1;
            }
            i = i + 1;
        }
        assert(self.details@.subrange(0, i as int) =~= self.details@);
        n
    }

    /// The number of new installations.
    pub fn new_installation_count(&self) -> (r: usize)
        ensures
            r == count_of_type(self.details@, UpgradeType::NewInstallation),
    {
        self.count_type(UpgradeType::NewInstallation)
    }

    /// The number of version upgrades.
    pub fn version_upgrade_count(&self) -> (r: usize)
        ensures
            r == count_of_type(self.details@, UpgradeType::VersionUpgrade),
    {
        self.count_type(UpgradeType::VersionUpgrade)
    }

    /// The number of downgrades.
    pub fn downgrade_count(&self) -> (r: usize)
        ensures
            r == count_of_type(self.details@, UpgradeType::Downgrade),
    {
        self.count_type(UpgradeType::Downgrade)
    }

    fn group_section_text(&self, group: &str, heading: &str, last: bool) -> (r: String)
        ensures
            r@ == group_section(self.details@, group@, heading@, last),
    {
        let mut lines = String::new();
        let mut found = false;
        let mut i: usize = 0;
        while i < self.details.len()
            invariant
                i <= self.details@.len(),
                lines@ == group_lines(self.details@, group@, i as int),
                found == exists|k: int| 0 <= k < i && in_group(#[trigger] self.details@[k], group@),
            decreases self.details.len() - i,
        {
            let t = self.details[i].get_toolchain_type();
            if crate::text::same_text(t.as_str(), group) {
                lines.append("  ");
                let e = self.details[i].to_enhanced_string();
                lines.append(e.as_str());
                lines.append("\n");
                found = true;
                assert(in_group(self.details@[i as int], group@));
            }
            i = i + 1;
        }
        if found {
            let mut r = String::from_str(heading);
            r.append("\n");
            r.append(lines.as_str());
            if !last {
                r.append("\n");
            }
            r
        } else {
            String::new()
        }
    }

    /// The details grouped by release channel, under one heading per
    /// channel that has any: stable, beta, nightly, then the others.
    pub fn to_grouped_text(&self) -> (r: String)
        ensures
            r@ == grouped_text(self.details@),
    {
        let mut r = self.group_section_text("stable", "Stable 工具链:", false);
        let beta = self.group_section_text("beta", "Beta 工具链:", false);
        r.append(beta.as_str());
        let nightly = self.group_section_text("nightly", "Nightly 工具链:", false);
        r.append(nightly.as_str());
        let other = self.group_section_text("", "其他工具链:", true);
        r.append(other.as_str());
        proof {
            reveal_strlit("");
            assert(""@ =~= Seq::<char>::empty());
            assert(r@ =~= grouped_text(self.details@));
        }
        r
    }

    /// The display text of each detail, in order.
    pub fn to_display_strings(&self) -> (r: Vec<String>)
        ensures
            r@.len() == self.details@.len(),
            forall|i: int| 0 <= i < r@.len() ==> #[trigger] r@[i]@ == display_text(self.details@[i]),
    {
        let mut r: Vec<String> = Vec::new();
        let mut i: usize = 0;
        while i < self.details.len()
            invariant
                i <= self.details@.len(),
                r@.len() == i,
                forall|k: int| 0 <= k < i ==> #[trigger] r@[k]@ == display_text(self.details@[k]),
            decreases self.details.len() - i,
        {
            r.push(self.details[i].to_display_string());
            i = i + 1;
        }
        r
    }

    /// The legacy text of each detail, in order.
    pub fn to_legacy_strings(&self) -> (r: Vec<String>)
        ensures
            r@.len() == self.details@.len(),
            forall|i: int| 0 <= i < r@.len() ==> #[trigger] r@[i]@ == legacy_text(self.details@[i]),
    {
        let mut r: Vec<String> = Vec::new();
        let mut i: usize = 0;
        while i < self.details.len()
            invariant
                i <= self.details@.len(),
                r@.len() == i,
                forall|k: int| 0 <= k < i ==> #[trigger] r@[k]@ == legacy_text(self.details@[k]),
            decreases self.details.len() - i,
        {
            r.push(self.details[i].to_legacy_string());
            i = i + 1;
        }
        r
    }
}

/// Builds the detail collections of the tools.
pub struct UpgradeDetailsManager;

impl UpgradeDetailsManager {
    /// The collection of `details` for Homebrew.
    pub fn create_homebrew_details(tool_name: String, details: Vec<UpgradeDetail>) -> (r:
        UpgradeDetails)
        ensures
            r.wf(),
            r.tool_name == tool_name,
            r.details@ == details@,
    {
        let mut upgrade_details = UpgradeDetails::new(tool_name);
        upgrade_details.add_details(details);
        upgrade_details
    }

    /// The collection of `details` for Rustup.
    pub fn create_rustup_details(tool_name: String, details: Vec<UpgradeDetail>) -> (r:
        UpgradeDetails)
        ensures
            r.wf(),
            r.tool_name == tool_name,
            r.details@ == details@,
    {
        let mut upgrade_details = UpgradeDetails::new(tool_name);
        upgrade_details.add_details(details);
        upgrade_details
    }

    /// The collection of `details` for Mise.
    pub fn create_mise_details(tool_name: String, details: Vec<UpgradeDetail>) -> (r:
        UpgradeDetails)
        ensures
            r.wf(),
            r.tool_name == tool_name,
            r.details@ == details@,
    {
        let mut upgrade_details = UpgradeDetails::new(tool_name);
        upgrade_details.add_details(details);
        upgrade_details
    }
}

} // verus!
