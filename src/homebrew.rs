//! What Homebrew's update, upgrade and cleanup runs changed, decided from
//! their output and from the packages listed as outdated.
use vstd::prelude::*;
use vstd::string::*;
use crate::text::{contains_str, has_substring, lines, occurs_at, same_text, split_lines, trim_text, trimmed};
use crate::tasks::StepState;
use crate::upgrade_details::{UpgradeDetail, UpgradeType, view_of};

verus! {

/// A package that Homebrew lists as outdated.
#[derive(Debug)]
pub struct SimpleOutdatedPackage {
    pub name: String,
    pub installed_version: String,
    pub current_version: String,
}

/// `k` is the first position of `p` in `s`.
pub open spec fn first_occurrence(s: Seq<char>, p: Seq<char>, k: int) -> bool {
    occurs_at(s, p, k) && forall|j: int| 0 <= j < k ==> !occurs_at(s, p, j)
}

/// The first position of `p` in `s`.
fn find_text(s: &str, p: &str) -> (r: Option<usize>)
    ensures
        match r {
            Some(k) => first_occurrence(s@, p@, k as int),
            None => !has_substring(s@, p@),
        },
{
    let n = s.unicode_len();
    let m = p.unicode_len();
    if m > n {
        return None;
    }
    let mut i: usize = 0;
    while i <= n - m
        invariant
            n == s@.len(),
            m == p@.len(),
            m <= n,
            i <= n - m + 1,
            forall|q: int| 0 <= q < i ==> !occurs_at(s@, p@, q),
        decreases n - m + 1 - i,
    {
        let mut k: usize = 0;
        let mut same = true;
        while k < m
            invariant
                k <= m,
                i <= n - m,
                n == s@.len(),
                m == p@.len(),
                same == forall|q: int| 0 <= q < k ==> s@[i + q] == p@[q],
            decreases m - k,
        {
            if s.get_char(i + k) != p.get_char(k) {
                same = false;
            }
            k = k + 1;
        }
        if same {
            assert(s@.subrange(i as int, i + m) =~= p@);
            return Some(i);
        }
        proof {
            let q = choose|q: int| 0 <= q < m && s@[i + q] != p@[q];
            assert(s@.subrange(i as int, i + m)[q] != p@[q]);
        }
        if i == n - m {
            return None;
        }
        i = i + 1;
    }
    None
}

/// A line as `str::lines` yields it: without a final carriage return.
pub open spec fn line_text(piece: Seq<char>) -> Seq<char> {
    if piece.len() > 0 && piece.last() == '\r' {
        piece.drop_last()
    } else {
        piece
    }
}

/// The package that a line of `brew outdated` declares: `name installed ->
/// current`, split at the first space and then at the first ` -> `.
pub open spec fn outdated_entry(line: Seq<char>) -> Option<(Seq<char>, Seq<char>, Seq<char>)> {
    if exists|a: int| first_occurrence(line, " "@, a) {
        let a = choose|a: int| first_occurrence(line, " "@, a);
        let info = line.subrange(a + 1, line.len() as int);
        if exists|b: int| first_occurrence(info, " -> "@, b) {
            let b = choose|b: int| first_occurrence(info, " -> "@, b);
            Some((line.subrange(0, a), info.subrange(0, b), info.subrange(b + 4, info.len() as int)))
        } else {
            None
        }
    } else {
        None
    }
}

/// The packages that the first `n` lines declare, in order.
pub open spec fn outdated_upto(ls: Seq<Seq<char>>, n: int) -> Seq<(Seq<char>, Seq<char>, Seq<char>)>
    decreases n,
{
    if n <= 0 || n > ls.len() {
        Seq::empty()
    } else {
        let prev = outdated_upto(ls, n - 1);
        match outdated_entry(line_text(ls[n - 1])) {
            Some(e) => prev.push(e),
            None => prev,
        }
    }
}

pub open spec fn package_view(p: SimpleOutdatedPackage) -> (Seq<char>, Seq<char>, Seq<char>) {
    (p.name@, p.installed_version@, p.current_version@)
}

proof fn lemma_first_occurrence_unique(s: Seq<char>, p: Seq<char>, a: int, b: int)
    requires
        first_occurrence(s, p, a),
        first_occurrence(s, p, b),
    ensures
        a == b,
{
    if a < b {
        assert(!occurs_at(s, p, a));
    }
    if b < a {
        assert(!occurs_at(s, p, b));
    }
}

fn parse_outdated_line(line: &str) -> (r: Option<SimpleOutdatedPackage>)
    ensures
        match r {
            Some(p) => outdated_entry(line@) == Some(package_view(p)),
            None => outdated_entry(line@) is None,
        },
{
    let n = line.unicode_len();
    match find_text(line, " ") {
        Some(a) => {
            proof {
                reveal_strlit(" ");
                let a2 = choose|a2: int| first_occurrence(line@, " "@, a2);
                lemma_first_occurrence_unique(line@, " "@, a as int, a2);
            }
            let info = line.substring_char(a + 1, n);
            match find_text(info, " -> ") {
                Some(b) => {
                    proof {
                        reveal_strlit(" -> ");
                        let b2 = choose|b2: int| first_occurrence(info@, " -> "@, b2);
                        lemma_first_occurrence_unique(info@, " -> "@, b as int, b2);
                    }
                    let m = info.unicode_len();
                    Some(
                        SimpleOutdatedPackage {
                            name: String::from_str(line.substring_char(0, a)),
                            installed_version: String::from_str(info.substring_char(0, b)),
                            current_version: String::from_str(info.substring_char(b + 4, m)),
                        },
                    )
                },
                None => {
                    proof {
                        if exists|b: int| first_occurrence(info@, " -> "@, b) {
                            let b = choose|b: int| first_occurrence(info@, " -> "@, b);
                            assert(occurs_at(info@, " -> "@, b));
                        }
                    }
                    None
                },
            }
        },
        None => {
            proof {
                if exists|a: int| first_occurrence(line@, " "@, a) {
                    let a = choose|a: int| first_occurrence(line@, " "@, a);
                    assert(occurs_at(line@, " "@, a));
                }
            }
            None
        },
    }
}

fn strip_carriage_return(piece: &str) -> (r: &str)
    ensures
        r@ == line_text(piece@),
{
    let n = piece.unicode_len();
    if n > 0 && piece.get_char(n - 1) == '\r' {
        piece.substring_char(0, n - 1)
    } else {
        assert(piece@.subrange(0, n as int) =~= piece@);
        piece
    }
}

/// The packages that `brew outdated` lists, one per line of the form
/// `name installed -> current`; other lines are skipped.
pub fn parse_outdated_text(out: &str) -> (r: Vec<SimpleOutdatedPackage>)
    ensures
        r@.map_values(|p: SimpleOutdatedPackage| package_view(p)) == outdated_upto(
            lines(out@),
            lines(out@).len() as int,
        ),
{
    let ls = split_lines(out);
    let ghost lv = lines(out@);
    let mut r: Vec<SimpleOutdatedPackage> = Vec::new();
    let mut i: usize = 0;
    while i < ls.len()
        invariant
            i <= ls@.len(),
            lv.len() == ls@.len(),
            forall|k: int| 0 <= k < ls@.len() ==> #[trigger] ls@[k]@ == lv[k],
            r@.map_values(|p: SimpleOutdatedPackage| package_view(p)) == outdated_upto(lv, i as int),
        decreases ls.len() - i,
    {
        assert(ls@[i as int]@ == lv[i as int]);
        let ghost prev = r@.map_values(|p: SimpleOutdatedPackage| package_view(p));
        match parse_outdated_line(strip_carriage_return(ls[i].as_str())) {
            Some(p) => {
                r.push(p);
                assert(r@.map_values(|p: SimpleOutdatedPackage| package_view(p)) =~= prev.push(
                    package_view(r@.last()),
                ));
            },
            None => {},
        }
        i = i + 1;
    }
    r
}

/// The package that an entry of `brew outdated --json` describes, with its
/// first installed version; none when no installed version is listed.
pub fn outdated_from_json_entry(
    name: String,
    installed_versions: Vec<String>,
    current_version: String,
) -> (r: Option<SimpleOutdatedPackage>)
    ensures
        match r {
            Some(p) => installed_versions@.len() > 0 && p.name == name && p.installed_version
                == installed_versions@[0] && p.current_version == current_version,
            None => installed_versions@.len() == 0,
        },
{
    if installed_versions.len() > 0 {
        let installed_version = installed_versions[0].clone();
        Some(SimpleOutdatedPackage { name, installed_version, current_version })
    } else {
        None
    }
}

/// Whether `brew update` left the index as it was: the repository stayed at
/// one known commit, or the output says it is already up to date.
pub open spec fn index_unchanged(before: Seq<char>, after: Seq<char>, out: Seq<char>) -> bool {
    (trimmed(before) == trimmed(after) && trimmed(before) != "unknown"@) || has_substring(
        out,
        "Already up-to-date."@,
    )
}

/// Whether a successful `brew update` changed the index, from the commit
/// before and after it and its output.
pub fn brew_update_changed(commit_before: &str, commit_after: &str, out_update: &str) -> (r: bool)
    ensures
        r == !index_unchanged(commit_before@, commit_after@, out_update@),
{
    let before = trim_text(commit_before);
    let after = trim_text(commit_after);
    let unchanged = (same_text(before.as_str(), after.as_str()) && !same_text(
        before.as_str(),
        "unknown",
    )) || contains_str(out_update, "Already up-to-date.");
    !unchanged
}

/// Whether a successful `brew cleanup` removed anything.
pub fn brew_cleanup_changed(out_cleanup: &str) -> (r: bool)
    ensures
        r == !has_substring(out_cleanup@, "Nothing to clean up"@),
{
    !contains_str(out_cleanup, "Nothing to clean up")
}

/// Whether `brew upgrade` output shows a package being upgraded or installed.
pub fn upgrade_output_shows_upgrades(output: &str) -> (r: bool)
    ensures
        r == (has_substring(output@, "==> Upgrading"@) || has_substring(
            output@,
            "==> Installing"@,
        )),
{
    contains_str(output, "==> Upgrading") || contains_str(output, "==> Installing")
}

/// Whether a successful `brew upgrade` changed anything: its output shows an
/// upgrade, or some package was outdated before it.
pub fn brew_upgrade_changed(has_actual_upgrades: bool, outdated_before: &[SimpleOutdatedPackage]) -> (r:
    bool)
    ensures
        r == (has_actual_upgrades || outdated_before@.len() > 0),
{
    has_actual_upgrades || outdated_before.len() > 0
}

/// Some package of `s` is named `name`.
pub open spec fn lists_package(s: Seq<SimpleOutdatedPackage>, name: Seq<char>) -> bool {
    exists|j: int| 0 <= j < s.len() && #[trigger] s[j].name@ == name
}

/// The upgrades among the first `n` packages outdated before: each one no
/// longer outdated after, in order.
pub open spec fn upgraded_upto(
    before: Seq<SimpleOutdatedPackage>,
    after: Seq<SimpleOutdatedPackage>,
    n: int,
) -> Seq<(Seq<char>, Seq<char>, Seq<char>, UpgradeType)>
    decreases n,
{
    if n <= 0 || n > before.len() {
        Seq::empty()
    } else {
        let prev = upgraded_upto(before, after, n - 1);
        let p = before[n - 1];
        if !lists_package(after, p.name@) {
            prev.push((p.name@, p.installed_version@, p.current_version@, UpgradeType::VersionUpgrade))
        } else {
            prev
        }
    }
}

fn lists_name(s: &[SimpleOutdatedPackage], name: &String) -> (r: bool)
    ensures
        r == lists_package(s@, name@),
{
    let mut j: usize = 0;
    while j < s.len()
        invariant
            j <= s.len(),
            forall|k: int| 0 <= k < j ==> s@[k].name@ != name@,
        decreases s.len() - j,
    {
        if s[j].name == *name {
            return true;
        }
        j = j + 1;
    }
    false
}

/// The packages that an upgrade brought up to date: each package outdated
/// before and no longer listed after, from its installed version to the
/// version that was current, in the order of `outdated_before`.
pub fn upgraded_packages(
    outdated_before: &[SimpleOutdatedPackage],
    outdated_after: &[SimpleOutdatedPackage],
) -> (r: Vec<UpgradeDetail>)
    ensures
        r@.map_values(|d: UpgradeDetail| view_of(d)) == upgraded_upto(
            outdated_before@,
            outdated_after@,
            outdated_before@.len() as int,
        ),
{
    let mut r: Vec<UpgradeDetail> = Vec::new();
    let mut i: usize = 0;
    while i < outdated_before.len()
        invariant
            i <= outdated_before.len(),
            r@.map_values(|d: UpgradeDetail| view_of(d)) == upgraded_upto(
                outdated_before@,
                outdated_after@,
                i as int,
            ),
        decreases outdated_before.len() - i,
    {
        let ghost prev = r@.map_values(|d: UpgradeDetail| view_of(d));
        if !lists_name(outdated_after, &outdated_before[i].name) {
            let d = UpgradeDetail::version_upgrade(
                outdated_before[i].name.clone(),
                outdated_before[i].installed_version.clone(),
                outdated_before[i].current_version.clone(),
            );
            r.push(d);
            assert(r@.map_values(|d: UpgradeDetail| view_of(d)) =~= prev.push(view_of(d)));
        }
        i = i + 1;
    }
    r
}

/// The state of `brew update`, from its exit code, the repository commit
/// before and after it, and its output: failed on a non-zero exit code,
/// otherwise changed unless the index stayed as it was.
pub fn brew_update(rc_update: i32, commit_before: &str, commit_after: &str, out_update: &str) -> (r:
    StepState)
    ensures
        r == if rc_update != 0 {
            StepState::Failed
        } else if index_unchanged(commit_before@, commit_after@, out_update@) {
            StepState::Unchanged
        } else {
            StepState::Changed
        },
{
    if rc_update != 0 {
        StepState::Failed
    } else if brew_update_changed(commit_before, commit_after, out_update) {
        StepState::Changed
    } else {
        StepState::Unchanged
    }
}

/// The state of `brew upgrade` and the packages it upgraded, from its exit
/// code, its output, and the outdated packages before and after it: failed
/// with no details on a non-zero exit code; otherwise the packages that are
/// no longer outdated, and changed when the output shows an upgrade or some
/// package was outdated before.
pub fn brew_upgrade(
    rc_upgrade: i32,
    output: &str,
    outdated_before: &[SimpleOutdatedPackage],
    outdated_after: &[SimpleOutdatedPackage],
) -> (r: (StepState, Vec<UpgradeDetail>))
    ensures
        rc_upgrade != 0 ==> r.0 == StepState::Failed && r.1@.len() == 0,
        rc_upgrade == 0 ==> r.0 == if has_substring(output@, "==> Upgrading"@) || has_substring(
            output@,
            "==> Installing"@,
        ) || outdated_before@.len() > 0 {
            StepState::Changed
        } else {
            StepState::Unchanged
        },
        rc_upgrade == 0 ==> r.1@.map_values(|d: UpgradeDetail| view_of(d)) == upgraded_upto(
            outdated_before@,
            outdated_after@,
            outdated_before@.len() as int,
        ),
{
    if rc_upgrade != 0 {
        return (StepState::Failed, Vec::new());
    }
    let has_actual_upgrades = upgrade_output_shows_upgrades(output);
    let details = upgraded_packages(outdated_before, outdated_after);
    let state = if brew_upgrade_changed(has_actual_upgrades, outdated_before) {
        StepState::Changed
    } else {
        StepState::Unchanged
    };
    (state, details)
}

/// The state of `brew cleanup`, from its exit code and output: failed on a
/// non-zero exit code, unchanged when there was nothing to clean up,
/// changed otherwise.
pub fn brew_cleanup(rc_cleanup: i32, out_cleanup: &str) -> (r: StepState)
    ensures
        r == if rc_cleanup != 0 {
            StepState::Failed
        } else if has_substring(out_cleanup@, "Nothing to clean up"@) {
            StepState::Unchanged
        } else {
            StepState::Changed
        },
{
    if rc_cleanup != 0 {
        StepState::Failed
    } else if brew_cleanup_changed(out_cleanup) {
        StepState::Changed
    } else {
        StepState::Unchanged
    }
}

} // verus!
