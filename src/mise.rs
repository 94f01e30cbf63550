//! The tool versions that `mise ls` lists.
use vstd::prelude::*;
use vstd::string::*;
use crate::rustup::{
    ToolchainVersion, changes_between, lower_of, to_lowercase, version_change_details,
};
use crate::upgrade_details::{UpgradeDetail, view_of};
use crate::tasks::StepState;
use crate::text::{
    contains_str, find_char, first_position, has_prefix, has_substring, lines, split_lines,
    split_words, starts_with_str, trim_text, trimmed, words,
};

verus! {

/// Tool names with the version of each, one version per name.
pub struct ToolVersions {
    entries: Vec<(String, String)>,
}

impl View for ToolVersions {
    type V = Map<Seq<char>, Seq<char>>;

    closed spec fn view(&self) -> Map<Seq<char>, Seq<char>> {
        ToolVersions::map_of(self.entries@)
    }
}

impl ToolVersions {
    /// No name is listed twice.
    pub closed spec fn wf(&self) -> bool {
        forall|i: int, j: int|
            0 <= i < j < self.entries@.len() ==> #[trigger] self.entries@[i].0@ != #[trigger] self.entries@[j].0@
    }

    /// No tool.
    pub fn new() -> (r: ToolVersions)
        ensures
            r.wf(),
            r@ == Map::<Seq<char>, Seq<char>>::empty(),
    {
        let r = ToolVersions { entries: Vec::new() };
        assert(r@ =~= Map::<Seq<char>, Seq<char>>::empty());
        r
    }

    fn position_of(&self, name: &str) -> (r: Option<usize>)
        ensures
            match r {
                Some(i) => i < self.entries@.len() && self.entries@[i as int].0@ == name@,
                None => forall|i: int| 0 <= i < self.entries@.len() ==> #[trigger] self.entries@[i].0@ != name@,
            },
    {
        let mut i: usize = 0;
        while i < self.entries.len()
            invariant
                i <= self.entries@.len(),
                forall|k: int| 0 <= k < i ==> #[trigger] self.entries@[k].0@ != name@,
            decreases self.entries.len() - i,
        {
            if crate::text::same_text(self.entries[i].0.as_str(), name) {
                return Some(i);
            }
            i = i + 1;
        }
        None
    }

    /// The version of `name`.
    pub fn get(&self, name: &str) -> (r: Option<&String>)
        requires
            self.wf(),
        ensures
            match r {
                Some(v) => self@.contains_key(name@) && self@[name@] == v@,
                None => !self@.contains_key(name@),
            },
    {
        match self.position_of(name) {
            Some(i) => {
                proof {
                    let j = choose|j: int|
                        0 <= j < self.entries@.len() && #[trigger] self.entries@[j].0@ == name@;
                    assert(j == i as int);
                }
                Some(&self.entries[i].1)
            },
            None => None,
        }
    }

    /// Sets the version of `name`, replacing the one it had.
    pub fn insert(&mut self, name: String, version: String)
        requires
            old(self).wf(),
        ensures
            final(self).wf(),
            final(self)@ == old(self)@.insert(name@, version@),
    {
        let ghost old_entries = self.entries@;
        match self.position_of(name.as_str()) {
            Some(i) => {
                self.entries.set(i, (name, version));
                proof {
                    let e = self.entries@;
                    assert forall|a: int, b: int|
                        0 <= a < b < e.len() implies #[trigger] e[a].0@ != #[trigger] e[b].0@ by {
                        if a != i && b != i {
                            assert(e[a] == old_entries[a] && e[b] == old_entries[b]);
                        } else if a == i {
                            assert(e[b] == old_entries[b]);
                            assert(old_entries[a].0@ != old_entries[b].0@);
                        } else {
                            assert(e[a] == old_entries[a]);
                            assert(old_entries[a].0@ != old_entries[b].0@);
                        }
                    }
                    self.lemma_view_after_set(old_entries, i as int);
                }
            },
            None => {
                self.entries.push((name, version));
                proof {
                    let e = self.entries@;
                    assert forall|a: int, b: int|
                        0 <= a < b < e.len() implies #[trigger] e[a].0@ != #[trigger] e[b].0@ by {
                        assert(e[a] == old_entries[a]);
                        if b < old_entries.len() {
                            assert(e[b] == old_entries[b]);
                        }
                    }
                    self.lemma_view_after_push(old_entries);
                }
            },
        }
    }

    proof fn lemma_view_after_set(&self, old_entries: Seq<(String, String)>, i: int)
        requires
            0 <= i < old_entries.len(),
            self.entries@ == old_entries.update(i, self.entries@[i]),
            old_entries[i].0@ == self.entries@[i].0@,
            forall|a: int, b: int|
                0 <= a < b < old_entries.len() ==> #[trigger] old_entries[a].0@
                    != #[trigger] old_entries[b].0@,
        ensures
            self@ == ToolVersions::map_of(old_entries).insert(
                self.entries@[i].0@,
                self.entries@[i].1@,
            ),
    {
        let e = self.entries@;
        let m = ToolVersions::map_of(old_entries);
        let k0 = e[i].0@;
        assert(e.len() == old_entries.len());
        assert forall|k: Seq<char>| #[trigger] self@.contains_key(k) <==> m.insert(k0, e[i].1@).contains_key(k) by {
            if exists|j: int| 0 <= j < old_entries.len() && #[trigger] old_entries[j].0@ == k {
                let j = choose|j: int| 0 <= j < old_entries.len() && #[trigger] old_entries[j].0@ == k;
                if j != i {
                    assert(e[j] == old_entries[j]);
                }
            }
            if exists|j: int| 0 <= j < e.len() && #[trigger] e[j].0@ == k {
                let j = choose|j: int| 0 <= j < e.len() && #[trigger] e[j].0@ == k;
                if j != i {
                    assert(e[j] == old_entries[j]);
                }
            }
        }
        assert forall|k: Seq<char>| #[trigger] self@.contains_key(k) implies self@[k] == m.insert(k0, e[i].1@)[k] by {
            let j = choose|j: int| 0 <= j < e.len() && #[trigger] e[j].0@ == k;
            if k == k0 {
                if j != i {
                    assert(e[j] == old_entries[j]);
                    if j < i {
                        assert(old_entries[j].0@ != old_entries[i].0@);
                    } else {
                        assert(old_entries[i].0@ != old_entries[j].0@);
                    }
                }
            } else {
                assert(j != i);
                assert(e[j] == old_entries[j]);
                let j2 = choose|j2: int| 0 <= j2 < old_entries.len() && #[trigger] old_entries[j2].0@ == k;
                if j2 != j {
                    if j2 < j {
                        assert(old_entries[j2].0@ != old_entries[j].0@);
                    } else {
                        assert(old_entries[j].0@ != old_entries[j2].0@);
                    }
                }
            }
        }
        assert(self@ =~= m.insert(k0, e[i].1@));
    }

    proof fn lemma_view_after_push(&self, old_entries: Seq<(String, String)>)
        requires
            self.entries@.len() == old_entries.len() + 1,
            forall|j: int| 0 <= j < old_entries.len() ==> #[trigger] self.entries@[j] == old_entries[j],
            forall|a: int, b: int|
                0 <= a < b < self.entries@.len() ==> #[trigger] self.entries@[a].0@
                    != #[trigger] self.entries@[b].0@,
        ensures
            self@ == ToolVersions::map_of(old_entries).insert(
                self.entries@.last().0@,
                self.entries@.last().1@,
            ),
    {
        let e = self.entries@;
        let n = old_entries.len() as int;
        let m = ToolVersions::map_of(old_entries);
        let k0 = e[n].0@;
        assert forall|k: Seq<char>| #[trigger] self@.contains_key(k) <==> m.insert(k0, e[n].1@).contains_key(k) by {
            if exists|j: int| 0 <= j < old_entries.len() && #[trigger] old_entries[j].0@ == k {
                let j = choose|j: int| 0 <= j < old_entries.len() && #[trigger] old_entries[j].0@ == k;
                assert(e[j] == old_entries[j]);
            }
            if exists|j: int| 0 <= j < e.len() && #[trigger] e[j].0@ == k {
                let j = choose|j: int| 0 <= j < e.len() && #[trigger] e[j].0@ == k;
                if j != n {
                    assert(e[j] == old_entries[j]);
                }
            }
            if k == k0 {
                assert(e[n].0@ == k);
            }
        }
        assert forall|k: Seq<char>| #[trigger] self@.contains_key(k) implies self@[k] == m.insert(k0, e[n].1@)[k] by {
            let j = choose|j: int| 0 <= j < e.len() && #[trigger] e[j].0@ == k;
            if k == k0 {
                if j != n {
                    assert(e[j].0@ != e[n].0@);
                }
            } else {
                assert(j != n);
                assert(e[j] == old_entries[j]);
                let j2 = choose|j2: int| 0 <= j2 < old_entries.len() && #[trigger] old_entries[j2].0@ == k;
                assert(e[j2] == old_entries[j2]);
                if j2 != j {
                    if j2 < j {
                        assert(e[j2].0@ != e[j].0@);
                    } else {
                        assert(e[j].0@ != e[j2].0@);
                    }
                }
            }
        }
        assert(self@ =~= m.insert(k0, e[n].1@));
    }

    /// A named tool whose version holds a dot.
    pub open spec fn is_usable(name: Seq<char>, version: Seq<char>) -> bool {
        name.len() > 0 && version.len() > 0 && version.contains('.')
    }

    proof fn lemma_entry_in_view(&self, j: int)
        requires
            self.wf(),
            0 <= j < self.entries@.len(),
        ensures
            self@.contains_key(self.entries@[j].0@),
            self@[self.entries@[j].0@] == self.entries@[j].1@,
    {
        let k = self.entries@[j].0@;
        assert(self@.contains_key(k));
        let j2 = choose|j2: int| 0 <= j2 < self.entries@.len() && #[trigger] self.entries@[j2].0@ == k;
        if j2 < j {
            assert(self.entries@[j2].0@ != self.entries@[j].0@);
        }
        if j < j2 {
            assert(self.entries@[j].0@ != self.entries@[j2].0@);
        }
    }

    /// The listed tools whose name is not empty and whose version holds a
    /// dot, each once, as toolchain versions.
    pub fn usable_versions(&self) -> (r: Vec<ToolchainVersion>)
        requires
            self.wf(),
        ensures
            forall|i: int|
                0 <= i < r@.len() ==> self@.contains_key(#[trigger] r@[i].name@) && self@[r@[i].name@]
                    == r@[i].version@ && ToolVersions::is_usable(r@[i].name@, r@[i].version@),
            forall|k: Seq<char>|
                #[trigger] self@.contains_key(k) && ToolVersions::is_usable(k, self@[k]) ==> exists|
                    i: int,
                | 0 <= i < r@.len() && #[trigger] r@[i].name@ == k,
            forall|a: int, b: int| 0 <= a < b < r@.len() ==> #[trigger] r@[a].name@ != #[trigger] r@[b].name@,
    {
        let mut r: Vec<ToolchainVersion> = Vec::new();
        let ghost idx: Seq<int> = Seq::empty();
        let mut i: usize = 0;
        while i < self.entries.len()
            invariant
                i <= self.entries@.len(),
                self.wf(),
                idx.len() == r@.len(),
                forall|m: int|
                    0 <= m < r@.len() ==> 0 <= #[trigger] idx[m] < i && self.entries@[idx[m]].0@
                        == r@[m].name@ && self.entries@[idx[m]].1@ == r@[m].version@
                        && ToolVersions::is_usable(r@[m].name@, r@[m].version@),
                forall|j: int|
                    0 <= j < i && ToolVersions::is_usable(
                        #[trigger] self.entries@[j].0@,
                        self.entries@[j].1@,
                    ) ==> exists|m: int| 0 <= m < r@.len() && #[trigger] r@[m].name@ == self.entries@[j].0@,
                forall|a: int, b: int|
                    0 <= a < b < r@.len() ==> #[trigger] r@[a].name@ != #[trigger] r@[b].name@,
            decreases self.entries.len() - i,
        {
            let name = &self.entries[i].0;
            let version = &self.entries[i].1;
            if name.unicode_len() > 0 && version.unicode_len() > 0 && has_dot(version.as_str()) {
                let ghost before = r@;
                r.push(ToolchainVersion { name: name.clone(), version: version.clone() });
                proof {
                    idx = idx.push(i as int);
                    assert forall|a: int, b: int|
                        0 <= a < b < r@.len() implies #[trigger] r@[a].name@ != #[trigger] r@[b].name@ by {
                        if b == before.len() {
                            assert(r@[a] == before[a]);
                            let ja = idx[a];
                            assert(self.entries@[ja].0@ != self.entries@[i as int].0@);
                        } else {
                            assert(r@[a] == before[a] && r@[b] == before[b]);
                        }
                    }
                    assert forall|j: int|
                        0 <= j < i + 1 && ToolVersions::is_usable(
                            #[trigger] self.entries@[j].0@,
                            self.entries@[j].1@,
                        ) implies exists|m: int| 0 <= m < r@.len() && #[trigger] r@[m].name@ == self.entries@[j].0@ by {
                        if j == i {
                            assert(r@[before.len() as int].name@ == self.entries@[j].0@);
                        } else {
                            let m = choose|m: int| 0 <= m < before.len() && #[trigger] before[m].name@ == self.entries@[j].0@;
                            assert(r@[m] == before[m]);
                        }
                    }
                }
            }
            i = i + 1;
        }
        proof {
            assert forall|m: int| 0 <= m < r@.len() implies self@.contains_key(#[trigger] r@[m].name@)
                && self@[r@[m].name@] == r@[m].version@ && ToolVersions::is_usable(r@[m].name@, r@[m].version@) by {
                self.lemma_entry_in_view(idx[m]);
            }
            assert forall|k: Seq<char>|
                #[trigger] self@.contains_key(k) && ToolVersions::is_usable(k, self@[k]) implies exists|
                    m: int,
                | 0 <= m < r@.len() && #[trigger] r@[m].name@ == k by {
                let j = choose|j: int| 0 <= j < self.entries@.len() && #[trigger] self.entries@[j].0@ == k;
                self.lemma_entry_in_view(j);
                assert(ToolVersions::is_usable(self.entries@[j].0@, self.entries@[j].1@));
            }
        }
        r
    }

    /// The map that a list of name and version pairs with distinct names describes.
    pub closed spec fn map_of(entries: Seq<(String, String)>) -> Map<Seq<char>, Seq<char>> {
        Map::new(
            |k: Seq<char>| exists|i: int| 0 <= i < entries.len() && #[trigger] entries[i].0@ == k,
            |k: Seq<char>|
                entries[choose|i: int| 0 <= i < entries.len() && #[trigger] entries[i].0@ == k].1@,
        )
    }

    /// The number of tools.
    pub fn len(&self) -> (r: usize)
        requires
            self.wf(),
        ensures
            r == self@.len(),
    {
        proof {
            let names = self.entries@.map_values(|e: (String, String)| e.0@);
            assert(names.no_duplicates()) by {
                assert forall|a: int, b: int|
                    0 <= a < names.len() && 0 <= b < names.len() && a != b implies names[a]
                    != names[b] by {
                    if a < b {
                        assert(self.entries@[a].0@ != self.entries@[b].0@);
                    } else {
                        assert(self.entries@[b].0@ != self.entries@[a].0@);
                    }
                }
            }
            names.unique_seq_to_set();
            assert forall|k: Seq<char>| #[trigger] self@.dom().contains(k) <==> names.to_set().contains(k) by {
                if self@.dom().contains(k) {
                    let i = choose|i: int| 0 <= i < self.entries@.len() && #[trigger] self.entries@[i].0@ == k;
                    assert(names[i] == k);
                }
                if names.to_set().contains(k) {
                    let i = choose|i: int| 0 <= i < names.len() && names[i] == k;
                    assert(self.entries@[i].0@ == k);
                }
            }
            assert(self@.dom() =~= names.to_set());
        }
        self.entries.len()
    }

    /// Whether no tool is listed.
    pub fn is_empty(&self) -> (r: bool)
        requires
            self.wf(),
        ensures
            r == (self@.len() == 0),
    {
        self.len() == 0
    }
}

/// Whether `c` is in one of Unicode's number categories, as
/// `char::is_numeric` decides it.
pub uninterp spec fn numeric_char(c: char) -> bool;

/// Relies on `char::is_numeric`: whether `c` lies in the Unicode general
/// categories Nd, Nl or No. The ASCII digits are in Nd.
#[verifier::external_body]
fn is_numeric(c: char) -> (r: bool)
    ensures
        r == numeric_char(c),
        ('0' <= c && c <= '9') ==> r,
{
    c.is_numeric()
}

/// Some character of `s` is numeric.
pub open spec fn has_numeric(s: Seq<char>) -> bool {
    exists|i: int| 0 <= i < s.len() && numeric_char(#[trigger] s[i])
}

fn contains_numeric(s: &str) -> (r: bool)
    ensures
        r == has_numeric(s@),
{
    let n = s.unicode_len();
    let mut i: usize = 0;
    while i < n
        invariant
            i <= n,
            n == s@.len(),
            forall|k: int| 0 <= k < i ==> !numeric_char(#[trigger] s@[k]),
        decreases n - i,
    {
        if is_numeric(s.get_char(i)) {
            return true;
        }
        i = i + 1;
    }
    false
}

/// The tool and version that one line of `mise ls` output declares.
///
/// The line is trimmed; an empty line, or one that opens or closes a JSON
/// object, declares nothing, nor, unless `simple`, one that begins with a
/// quote. `tool@version` gives the trimmed text before the first `@` and the
/// first word after it; otherwise the first two words give tool and version,
/// when the version holds a numeric character. With `simple`, a version must
/// also hold a dot.
pub open spec fn version_entry(line: Seq<char>, simple: bool) -> Option<(Seq<char>, Seq<char>)> {
    let t = trimmed(line);
    if t.len() == 0 || t[0] == '{' || t[0] == '}' || (!simple && t[0] == '"') {
        None
    } else if t.contains('@') {
        let k = choose|k: int| first_position(t, '@', k);
        let w = words(t.subrange(k + 1, t.len() as int));
        let v = if w.len() > 0 {
            w[0]
        } else {
            Seq::empty()
        };
        if v.len() > 0 && (!simple || v.contains('.')) {
            Some((trimmed(t.subrange(0, k)), v))
        } else {
            None
        }
    } else {
        let w = words(t);
        if w.len() >= 2 && has_numeric(w[1]) && (!simple || w[1].contains('.')) {
            Some((w[0], w[1]))
        } else {
            None
        }
    }
}

/// The versions that the first `n` lines declare, a later line overriding
/// an earlier one for the same tool.
pub open spec fn versions_upto(ls: Seq<Seq<char>>, n: int, simple: bool) -> Map<Seq<char>, Seq<char>>
    decreases n,
{
    if n <= 0 || n > ls.len() {
        Map::empty()
    } else {
        let m = versions_upto(ls, n - 1, simple);
        match version_entry(ls[n - 1], simple) {
            Some((k, v)) => m.insert(k, v),
            None => m,
        }
    }
}

/// The versions that `mise ls` output declares; nothing when the output is
/// a JSON object.
pub open spec fn mise_versions_of(output: Seq<char>) -> Map<Seq<char>, Seq<char>> {
    if has_prefix(trimmed(output), "{"@) {
        Map::empty()
    } else {
        versions_upto(lines(output), lines(output).len() as int, false)
    }
}

/// The versions that `mise ls` output declares, read by the fallback rules.
pub open spec fn mise_versions_simple_of(output: Seq<char>) -> Map<Seq<char>, Seq<char>> {
    versions_upto(lines(output), lines(output).len() as int, true)
}

fn has_dot(s: &str) -> (r: bool)
    ensures
        r == s@.contains('.'),
{
    match find_char(s, '.') {
        Some(k) => {
            assert(s@[k as int] == '.');
            true
        },
        None => false,
    }
}

/// The tool and version that one line declares.
pub fn parse_version_line(line: &str, simple: bool) -> (r: Option<(String, String)>)
    ensures
        match r {
            Some((k, v)) => version_entry(line@, simple) == Some((k@, v@)),
            None => version_entry(line@, simple) is None,
        },
{
    let t = trim_text(line);
    let ts = t.as_str();
    let n = ts.unicode_len();
    if n == 0 {
        return None;
    }
    let c = ts.get_char(0);
    if c == '{' || c == '}' || (!simple && c == '"') {
        return None;
    }
    match find_char(ts, '@') {
        Some(k) => {
            proof {
                assert(t@.contains('@')) by {
                    assert(t@[k as int] == '@');
                }
                let k2 = choose|k2: int| first_position(t@, '@', k2);
                if k2 < k {
                    assert(t@[k2] != '@');
                }
                if k2 > k {
                    assert(t@[k as int] != '@');
                }
            }
            let rest = ts.substring_char(k + 1, n);
            let w = split_words(rest);
            let v = if w.len() > 0 {
                w[0].clone()
            } else {
                String::new()
            };
            proof {
                if w@.len() > 0 {
                    assert(v@ == words(rest@)[0]);
                }
            }
            if v.unicode_len() > 0 && (!simple || has_dot(v.as_str())) {
                let name = trim_text(ts.substring_char(0, k));
                Some((name, v))
            } else {
                None
            }
        },
        None => {
            let w = split_words(ts);
            if w.len() >= 2 && contains_numeric(w[1].as_str()) && (!simple || has_dot(
                w[1].as_str(),
            )) {
                let name = w[0].clone();
                let version = w[1].clone();
                assert(name@ == words(t@)[0]);
                assert(version@ == words(t@)[1]);
                Some((name, version))
            } else {
                proof {
                    if w@.len() >= 2 {
                        assert(w@[1]@ == words(t@)[1]);
                    }
                }
                None
            }
        },
    }
}

fn parse_lines(output: &str, simple: bool) -> (r: ToolVersions)
    ensures
        r.wf(),
        r@ == versions_upto(lines(output@), lines(output@).len() as int, simple),
{
    let ls = split_lines(output);
    let ghost lv = lines(output@);
    let mut versions = ToolVersions::new();
    let mut i: usize = 0;
    while i < ls.len()
        invariant
            i <= ls@.len(),
            lv.len() == ls@.len(),
            forall|k: int| 0 <= k < ls@.len() ==> #[trigger] ls@[k]@ == lv[k],
            versions.wf(),
            versions@ == versions_upto(lv, i as int, simple),
        decreases ls.len() - i,
    {
        assert(ls@[i as int]@ == lv[i as int]);
        match parse_version_line(ls[i].as_str(), simple) {
            Some((name, version)) => versions.insert(name, version),
            None => {},
        }
        i = i + 1;
    }
    versions
}

/// The tool versions that `mise ls` output lists. JSON output is not read:
/// it yields no tool.
pub fn parse_mise_versions(output: &str) -> (r: ToolVersions)
    ensures
        r.wf(),
        r@ == mise_versions_of(output@),
{
    let t = trim_text(output);
    if starts_with_str(t.as_str(), "{") {
        return ToolVersions::new();
    }
    parse_lines(output, false)
}

/// The tool versions that `mise ls` output lists, read by the fallback rules.
pub fn parse_mise_versions_simple(output: &str) -> (r: ToolVersions)
    ensures
        r.wf(),
        r@ == mise_versions_simple_of(output@),
{
    parse_lines(output, true)
}

/// Whether lower-case `mise up` output shows that a tool was installed or
/// updated.
pub open spec fn mise_markers_present(t: Seq<char>) -> bool {
    has_substring(t, "install"@) || has_substring(t, "installed"@) || has_substring(t, "upgraded"@)
        || has_substring(t, "updated"@) || has_substring(t, "->"@) || has_substring(t, "→"@)
}

/// Whether the lower-case text `lowered` shows an installation or update.
pub fn mise_markers_in(lowered: &str) -> (r: bool)
    ensures
        r == mise_markers_present(lowered@),
{
    contains_str(lowered, "install") || contains_str(lowered, "installed") || contains_str(
        lowered,
        "upgraded",
    ) || contains_str(lowered, "updated") || contains_str(lowered, "->") || contains_str(
        lowered,
        "→",
    )
}

/// Whether `mise up` output shows an installation or update, whatever the
/// case of its letters.
pub fn mise_output_has_updates(out: &str) -> (r: bool)
    ensures
        r == mise_markers_present(lower_of(out@)),
{
    let lowered = to_lowercase(out);
    mise_markers_in(lowered.as_str())
}

/// The state of a `mise up` run: changed when its output shows updates and
/// it exited with 0, failed when it shows updates and exited otherwise,
/// unchanged when it shows none.
pub fn mise_up_state(has_updates: bool, rc: i32) -> (r: StepState)
    ensures
        r == if has_updates {
            if rc == 0 {
                StepState::Changed
            } else {
                StepState::Failed
            }
        } else {
            StepState::Unchanged
        },
{
    if has_updates {
        if rc == 0 {
            StepState::Changed
        } else {
            StepState::Failed
        }
    } else {
        StepState::Unchanged
    }
}

/// The state of `mise up` and what it changed, from its exit code, its
/// output, and the tool versions before and after it: the state as
/// `mise_up_state` gives it, and the version changes when the output shows
/// updates, none otherwise.
pub fn mise_up(
    rc: i32,
    output: &str,
    versions_before: &[ToolchainVersion],
    versions_after: &[ToolchainVersion],
) -> (r: (StepState, Vec<UpgradeDetail>))
    ensures
        r.0 == if mise_markers_present(lower_of(output@)) {
            if rc == 0 {
                StepState::Changed
            } else {
                StepState::Failed
            }
        } else {
            StepState::Unchanged
        },
        r.1@.map_values(|d: UpgradeDetail| view_of(d)) == if mise_markers_present(
            lower_of(output@),
        ) {
            changes_between(versions_before@, versions_after@)
        } else {
            Seq::empty()
        },
{
    let has_updates = mise_output_has_updates(output);
    let details = if has_updates {
        version_change_details(versions_before, versions_after)
    } else {
        let none: Vec<UpgradeDetail> = Vec::new();
        assert(none@.map_values(|d: UpgradeDetail| view_of(d)) =~= Seq::empty());
        none
    };
    (mise_up_state(has_updates, rc), details)
}

} // verus!
