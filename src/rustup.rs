//! What a `rustup update` run changed: toolchain versions before and after,
//! and the words in its output that announce an update.
use vstd::prelude::*;
use vstd::string::*;
use crate::text::{contains_str, has_prefix, has_substring, split_words, starts_with_str, words};
use crate::tasks::StepState;
use crate::upgrade_details::{UpgradeDetail, UpgradeType, not_installed, view_of};

verus! {

/// The rustc version of one installed toolchain.
#[derive(Debug)]
pub struct ToolchainVersion {
    pub name: String,
    pub version: String,
}

/// The version in a `rustc --version` line: its second word, when the line
/// begins with `rustc`.
pub open spec fn rust_version_of(s: Seq<char>) -> Option<Seq<char>> {
    if has_prefix(s, "rustc"@) && words(s).len() >= 2 {
        Some(words(s)[1])
    } else {
        None
    }
}

/// Extracts the version from a `rustc --version` line, such as `1.70.0`
/// from `rustc 1.70.0 (90c541806 2023-05-31)`.
pub fn extract_rust_version(version_output: &str) -> (r: Option<String>)
    ensures
        match r {
            Some(v) => rust_version_of(version_output@) == Some(v@),
            None => rust_version_of(version_output@) is None,
        },
{
    let parts = split_words(version_output);
    if parts.len() >= 2 && starts_with_str(version_output, "rustc") {
        let v = parts[1].clone();
        assert(v@ == words(version_output@)[1]);
        Some(v)
    } else {
        None
    }
}

/// `j` is the first position in `s` of a toolchain named `name`.
pub open spec fn first_named(s: Seq<ToolchainVersion>, name: Seq<char>, j: int) -> bool {
    &&& 0 <= j < s.len()
    &&& s[j].name@ == name
    &&& forall|k: int| 0 <= k < j ==> s[k].name@ != name
}

/// Some toolchain of `s` is named `name`.
pub open spec fn has_named(s: Seq<ToolchainVersion>, name: Seq<char>) -> bool {
    exists|j: int| 0 <= j < s.len() && #[trigger] s[j].name@ == name
}

/// A toolchain of `before` shows another version at its first occurrence in
/// `after`, or a toolchain of `after` is absent from `before`.
pub open spec fn versions_changed(before: Seq<ToolchainVersion>, after: Seq<ToolchainVersion>) -> bool {
    (exists|i: int, j: int|
        0 <= i < before.len() && #[trigger] first_named(after, before[i].name@, j)
            && after[j].version@ != before[i].version@) || (exists|j: int|
        0 <= j < after.len() && !has_named(before, #[trigger] after[j].name@))
}

/// The position of the first toolchain of `s` named `name`.
fn find_named(s: &[ToolchainVersion], name: &String) -> (r: Option<usize>)
    ensures
        match r {
            Some(j) => first_named(s@, name@, j as int),
            None => !has_named(s@, name@),
        },
{
    let mut j: usize = 0;
    while j < s.len()
        invariant
            j <= s.len(),
            forall|k: int| 0 <= k < j ==> s@[k].name@ != name@,
        decreases s.len() - j,
    {
        if s[j].name == *name {
            return Some(j);
        }
        j = j + 1;
    }
    None
}

/// Whether a toolchain changed version or was newly installed between
/// `before` and `after`.
pub fn detect_version_changes(before: &[ToolchainVersion], after: &[ToolchainVersion]) -> (r: bool)
    ensures
        r == versions_changed(before@, after@),
{
    let mut i: usize = 0;
    while i < before.len()
        invariant
            i <= before.len(),
            forall|k: int, j: int|
                0 <= k < i && #[trigger] first_named(after@, before@[k].name@, j) ==> after@[j].version@
                    == before@[k].version@,
        decreases before.len() - i,
    {
        match find_named(after, &before[i].name) {
            Some(j) => {
                if before[i].version != after[j].version {
                    assert(first_named(after@, before@[i as int].name@, j as int));
                    return true;
                }
                assert forall|j2: int| #[trigger]
                    first_named(after@, before@[i as int].name@, j2) implies after@[j2].version@
                    == before@[i as int].version@ by {
                    assert(j2 == j as int);
                }
            },
            None => {},
        }
        i = i + 1;
    }
    let mut j: usize = 0;
    while j < after.len()
        invariant
            j <= after.len(),
            forall|k: int, m: int|
                0 <= k < before.len() && #[trigger] first_named(after@, before@[k].name@, m)
                    ==> after@[m].version@ == before@[k].version@,
            forall|m: int| 0 <= m < j ==> has_named(before@, #[trigger] after@[m].name@),
        decreases after.len() - j,
    {
        if find_named(before, &after[j].name).is_none() {
            return true;
        }
        j = j + 1;
    }
    false
}

/// The lower-case form of `s`, as `str::to_lowercase` gives it.
pub uninterp spec fn lower_of(s: Seq<char>) -> Seq<char>;

/// Relies on `str::to_lowercase`: the lower-case form of the text, which
/// depends on its characters alone.
#[verifier::external_body]
pub(crate) fn to_lowercase(s: &str) -> (r: String)
    ensures
        r@ == lower_of(s@),
{
    s.to_lowercase()
}

/// Words that announce that something was updated.
pub open spec fn announces_update(t: Seq<char>) -> bool {
    has_substring(t, "updated"@) || has_substring(t, "upgraded"@) || has_substring(
        t,
        "installed"@,
    ) || has_substring(t, "downloaded"@) || has_substring(t, "installing"@) || has_substring(
        t,
        "downloading"@,
    )
}

/// Whether lower-case update output reports an update: not when it says
/// `unchanged` or `up to date`; otherwise when it holds an update word, an
/// arrow, or both `from` and `to`.
pub open spec fn update_indicated(t: Seq<char>) -> bool {
    if has_substring(t, "unchanged"@) || has_substring(t, "up to date"@) {
        false
    } else {
        announces_update(t) || has_substring(t, "->"@) || has_substring(t, "→"@) || (has_substring(
            t,
            "from"@,
        ) && has_substring(t, "to"@))
    }
}

/// Whether the lower-case text `lowered` reports an update.
pub fn output_indicates_update(lowered: &str) -> (r: bool)
    ensures
        r == update_indicated(lowered@),
{
    if contains_str(lowered, "unchanged") || contains_str(lowered, "up to date") {
        return false;
    }
    if contains_str(lowered, "updated") || contains_str(lowered, "upgraded") || contains_str(
        lowered,
        "installed",
    ) || contains_str(lowered, "downloaded") || contains_str(lowered, "installing")
        || contains_str(lowered, "downloading") {
        return true;
    }
    if contains_str(lowered, "->") || contains_str(lowered, "→") {
        return true;
    }
    contains_str(lowered, "from") && contains_str(lowered, "to")
}

/// Whether update output reports an update, whatever the case of its letters.
pub fn detect_output_indicators(output: &str) -> (r: bool)
    ensures
        r == update_indicated(lower_of(output@)),
{
    let lowered = to_lowercase(output);
    output_indicates_update(lowered.as_str())
}

/// Whether an update happened: a version changed, or the output says so.
pub fn determine_upgrade_status(
    versions_before: &[ToolchainVersion],
    versions_after: &[ToolchainVersion],
    output: &str,
) -> (r: bool)
    ensures
        r == (versions_changed(versions_before@, versions_after@) || update_indicated(
            lower_of(output@),
        )),
{
    let has_version_changes = detect_version_changes(versions_before, versions_after);
    let has_output_indicators = detect_output_indicators(output);
    has_version_changes || has_output_indicators
}

/// The version upgrades among the first `n` toolchains of `before`: each one
/// whose first namesake in `after` shows another version, in the order of
/// `before`.
pub open spec fn upgrades_upto(
    before: Seq<ToolchainVersion>,
    after: Seq<ToolchainVersion>,
    n: int,
) -> Seq<(Seq<char>, Seq<char>, Seq<char>, UpgradeType)>
    decreases n,
{
    if n <= 0 || n > before.len() {
        Seq::empty()
    } else {
        let prev = upgrades_upto(before, after, n - 1);
        let b = before[n - 1];
        if exists|j: int| #[trigger] first_named(after, b.name@, j) && after[j].version@ != b.version@ {
            let j = choose|j: int| #[trigger] first_named(after, b.name@, j) && after[j].version@ != b.version@;
            prev.push((b.name@, b.version@, after[j].version@, UpgradeType::VersionUpgrade))
        } else {
            prev
        }
    }
}

/// The new installations among the first `n` toolchains of `after`: each
/// one whose name `before` lacks, in the order of `after`.
pub open spec fn installs_upto(
    before: Seq<ToolchainVersion>,
    after: Seq<ToolchainVersion>,
    n: int,
) -> Seq<(Seq<char>, Seq<char>, Seq<char>, UpgradeType)>
    decreases n,
{
    if n <= 0 || n > after.len() {
        Seq::empty()
    } else {
        let prev = installs_upto(before, after, n - 1);
        let a = after[n - 1];
        if !has_named(before, a.name@) {
            prev.push((a.name@, not_installed(), a.version@, UpgradeType::NewInstallation))
        } else {
            prev
        }
    }
}

/// The version upgrades, then the new installations, between two listings.
pub open spec fn changes_between(before: Seq<ToolchainVersion>, after: Seq<ToolchainVersion>) -> Seq<
    (Seq<char>, Seq<char>, Seq<char>, UpgradeType),
> {
    upgrades_upto(before, after, before.len() as int) + installs_upto(
        before,
        after,
        after.len() as int,
    )
}

/// The details of what changed between two listings of installed versions:
/// first each version upgrade, in the order of `before`, then each new
/// installation, in the order of `after`.
pub fn version_change_details(before: &[ToolchainVersion], after: &[ToolchainVersion]) -> (r: Vec<
    UpgradeDetail,
>)
    ensures
        r@.map_values(|d: UpgradeDetail| view_of(d)) == changes_between(before@, after@),
{
    let mut r: Vec<UpgradeDetail> = Vec::new();
    let mut i: usize = 0;
    while i < before.len()
        invariant
            i <= before.len(),
            r@.map_values(|d: UpgradeDetail| view_of(d)) == upgrades_upto(before@, after@, i as int),
        decreases before.len() - i,
    {
        let ghost prev = r@.map_values(|d: UpgradeDetail| view_of(d));
        match find_named(after, &before[i].name) {
            Some(j) => {
                if before[i].version != after[j].version {
                    let d = UpgradeDetail::version_upgrade(
                        before[i].name.clone(),
                        before[i].version.clone(),
                        after[j].version.clone(),
                    );
                    r.push(d);
                    proof {
                        let b = before@[i as int];
                        assert(first_named(after@, b.name@, j as int));
                        let j2 = choose|j2: int|
                            #[trigger] first_named(after@, b.name@, j2) && after@[j2].version@ != b.version@;
                        if j2 < j {
                            assert(after@[j2].name@ != b.name@);
                        }
                        if j2 > j {
                            assert(after@[j as int].name@ != b.name@);
                        }
                        assert(r@.map_values(|d: UpgradeDetail| view_of(d)) =~= prev.push(
                            view_of(d),
                        ));
                    }
                } else {
                    proof {
                        let b = before@[i as int];
                        assert forall|j2: int| #[trigger]
                            first_named(after@, b.name@, j2) implies after@[j2].version@
                            == b.version@ by {
                            if j2 < j {
                                assert(after@[j2].name@ != b.name@);
                            }
                            if j2 > j {
                                assert(after@[j as int].name@ != b.name@);
                            }
                        }
                    }
                }
            },
            None => {},
        }
        i = i + 1;
    }
    let ghost ups = r@.map_values(|d: UpgradeDetail| view_of(d));
    let mut k: usize = 0;
    while k < after.len()
        invariant
            k <= after.len(),
            ups == upgrades_upto(before@, after@, before@.len() as int),
            r@.map_values(|d: UpgradeDetail| view_of(d)) == ups + installs_upto(
                before@,
                after@,
                k as int,
            ),
        decreases after.len() - k,
    {
        let ghost prev = r@.map_values(|d: UpgradeDetail| view_of(d));
        if find_named(before, &after[k].name).is_none() {
            let d = UpgradeDetail::new_installation(after[k].name.clone(), after[k].version.clone());
            r.push(d);
            assert(r@.map_values(|d: UpgradeDetail| view_of(d)) =~= prev.push(view_of(d)));
        }
        k = k + 1;
    }
    r
}

/// Whether a `rustup update` run changed anything, and the details of what
/// it changed: the version changes between the listings, or none when no
/// update shows.
pub fn rustup_update_outcome(
    versions_before: &[ToolchainVersion],
    versions_after: &[ToolchainVersion],
    output: &str,
) -> (r: (bool, Vec<UpgradeDetail>))
    ensures
        r.0 == (versions_changed(versions_before@, versions_after@) || update_indicated(
            lower_of(output@),
        )),
        r.1@.map_values(|d: UpgradeDetail| view_of(d)) == if r.0 {
            changes_between(versions_before@, versions_after@)
        } else {
            Seq::empty()
        },
{
    let has_upgrade = determine_upgrade_status(versions_before, versions_after, output);
    if has_upgrade {
        (true, version_change_details(versions_before, versions_after))
    } else {
        let none: Vec<UpgradeDetail> = Vec::new();
        assert(none@.map_values(|d: UpgradeDetail| view_of(d)) =~= Seq::empty());
        (false, none)
    }
}

/// Whether a line of `rustup show` or `rustup toolchain list` names a
/// stable, beta or nightly toolchain.
pub open spec fn names_toolchain(line: Seq<char>) -> bool {
    has_substring(line, "stable-"@) || has_substring(line, "nightly-"@) || has_substring(
        line,
        "beta-"@,
    )
}

/// The toolchain that a line of `rustup show` or `rustup toolchain list`
/// names: its first word, when it names a stable, beta or nightly toolchain.
pub fn toolchain_of_line(line: &str) -> (r: Option<String>)
    ensures
        match r {
            Some(t) => names_toolchain(line@) && words(line@).len() > 0 && t@ == words(line@)[0],
            None => !names_toolchain(line@) || words(line@).len() == 0,
        },
{
    if contains_str(line, "stable-") || contains_str(line, "nightly-") || contains_str(line, "beta-") {
        let parts = split_words(line);
        if parts.len() > 0 {
            let t = parts[0].clone();
            assert(t@ == words(line@)[0]);
            return Some(t);
        }
    }
    None
}

/// The state of `rustup update` and what it changed, from its exit code, the
/// toolchain versions before and after it, and its output: failed with no
/// details on a non-zero exit code, otherwise as `rustup_update_outcome`
/// decides.
pub fn rustup_update(
    rc: i32,
    versions_before: &[ToolchainVersion],
    versions_after: &[ToolchainVersion],
    output: &str,
) -> (r: (StepState, Vec<UpgradeDetail>))
    ensures
        rc != 0 ==> r.0 == StepState::Failed && r.1@.len() == 0,
        rc == 0 ==> r.0 == if versions_changed(versions_before@, versions_after@) || update_indicated(
            lower_of(output@),
        ) {
            StepState::Changed
        } else {
            StepState::Unchanged
        },
        rc == 0 ==> r.1@.map_values(|d: UpgradeDetail| view_of(d)) == if r.0
            == StepState::Changed {
            changes_between(versions_before@, versions_after@)
        } else {
            Seq::empty()
        },
{
    if rc != 0 {
        return (StepState::Failed, Vec::new());
    }
    let (changed, details) = rustup_update_outcome(versions_before, versions_after, output);
    if changed {
        (StepState::Changed, details)
    } else {
        (StepState::Unchanged, details)
    }
}

} // verus!
