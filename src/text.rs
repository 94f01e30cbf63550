//! Text primitives over characters: whitespace, substrings, prefixes and
//! whitespace-separated words.
use vstd::prelude::*;
use vstd::string::*;

verus! {

/// Unicode's White_Space property, the characters that `char::is_whitespace`
/// accepts.
pub open spec fn is_white_space(c: char) -> bool {
    c == '\t' || c == '\n' || c == '\u{0B}' || c == '\u{0C}' || c == '\r' || c == ' ' || c
        == '\u{85}' || c == '\u{A0}' || c == '\u{1680}' || ('\u{2000}' <= c && c <= '\u{200A}')
        || c == '\u{2028}' || c == '\u{2029}' || c == '\u{202F}' || c == '\u{205F}' || c
        == '\u{3000}'
}

pub fn is_whitespace(c: char) -> (r: bool)
    ensures
        r == is_white_space(c),
{
    c == '\t' || c == '\n' || c == '\u{0B}' || c == '\u{0C}' || c == '\r' || c == ' ' || c
        == '\u{85}' || c == '\u{A0}' || c == '\u{1680}' || ('\u{2000}' <= c && c <= '\u{200A}')
        || c == '\u{2028}' || c == '\u{2029}' || c == '\u{202F}' || c == '\u{205F}' || c
        == '\u{3000}'
}

/// `p` occurs in `s` at position `i`.
pub open spec fn occurs_at(s: Seq<char>, p: Seq<char>, i: int) -> bool {
    0 <= i && i + p.len() <= s.len() && s.subrange(i, i + p.len()) == p
}

/// `p` occurs somewhere in `s`.
pub open spec fn has_substring(s: Seq<char>, p: Seq<char>) -> bool {
    exists|i: int| #[trigger] occurs_at(s, p, i)
}

/// `s` begins with `p`.
pub open spec fn has_prefix(s: Seq<char>, p: Seq<char>) -> bool {
    occurs_at(s, p, 0)
}

fn occurs_at_exec(s: &str, p: &str, i: usize, n: usize, m: usize) -> (r: bool)
    requires
        n == s@.len(),
        m == p@.len(),
        i + m <= n,
    ensures
        r == occurs_at(s@, p@, i as int),
{
    let mut k: usize = 0;
    while k < m
        invariant
            k <= m,
            n == s@.len(),
            m == p@.len(),
            i + m <= n,
            forall|q: int| 0 <= q < k ==> s@[i + q] == p@[q],
        decreases m - k,
    {
        if s.get_char(i + k) != p.get_char(k) {
            assert(s@.subrange(i as int, i + m)[k as int] != p@[k as int]);
            return false;
        }
        k = k + 1;
    }
    assert(s@.subrange(i as int, i + m) =~= p@);
    true
}

/// Whether `p` occurs in `s`.
pub fn contains_str(s: &str, p: &str) -> (r: bool)
    ensures
        r == has_substring(s@, p@),
{
    let n = s.unicode_len();
    let m = p.unicode_len();
    if m > n {
        return false;
    }
    if m == 0 {
        assert(s@.subrange(0, 0) =~= p@);
        assert(occurs_at(s@, p@, 0));
        return true;
    }
    let mut i: usize = 0;
    while i <= n - m
        invariant
            n == s@.len(),
            m == p@.len(),
            1 <= m <= n,
            i <= n - m + 1,
            forall|q: int| 0 <= q < i ==> !occurs_at(s@, p@, q),
        decreases n - m + 1 - i,
    {
        if occurs_at_exec(s, p, i, n, m) {
            return true;
        }
        i = i + 1;
    }
    false
}

/// Whether `s` begins with `p`.
pub fn starts_with_str(s: &str, p: &str) -> (r: bool)
    ensures
        r == has_prefix(s@, p@),
{
    let n = s.unicode_len();
    let m = p.unicode_len();
    if m > n {
        return false;
    }
    occurs_at_exec(s, p, 0, n, m)
}

/// The first `n` characters of `s` end inside a word.
pub open spec fn ends_in_word(s: Seq<char>, n: int) -> bool {
    0 < n <= s.len() && !is_white_space(s[n - 1])
}

/// The whitespace-separated words of the first `n` characters of `s`.
pub open spec fn words_upto(s: Seq<char>, n: int) -> Seq<Seq<char>>
    decreases n,
{
    if n <= 0 || n > s.len() {
        Seq::empty()
    } else {
        let prev = words_upto(s, n - 1);
        if is_white_space(s[n - 1]) {
            prev
        } else if ends_in_word(s, n - 1) {
            prev.drop_last().push(prev.last().push(s[n - 1]))
        } else {
            prev.push(seq![s[n - 1]])
        }
    }
}

/// The whitespace-separated words of `s`, as `str::split_whitespace` yields them.
pub open spec fn words(s: Seq<char>) -> Seq<Seq<char>> {
    words_upto(s, s.len() as int)
}

pub open spec fn string_views(v: Seq<String>) -> Seq<Seq<char>> {
    v.map_values(|w: String| w@)
}

/// The whitespace-separated words of `s`, in order.
pub fn split_words(s: &str) -> (r: Vec<String>)
    ensures
        string_views(r@) == words(s@),
{
    let n = s.unicode_len();
    let mut r: Vec<String> = Vec::new();
    let mut in_word = false;
    let mut start: usize = 0;
    let mut i: usize = 0;
    while i < n
        invariant
            i <= n,
            n == s@.len(),
            in_word == ends_in_word(s@, i as int),
            in_word ==> start < i,
            string_views(r@) + (if in_word {
                seq![s@.subrange(start as int, i as int)]
            } else {
                Seq::empty()
            }) == words_upto(s@, i as int),
        decreases n - i,
    {
        let c = s.get_char(i);
        let ghost prev = words_upto(s@, i as int);
        let ghost before = string_views(r@);
        if is_whitespace(c) {
            if in_word {
                let w = String::from_str(s.substring_char(start, i));
                r.push(w);
                assert(string_views(r@) =~= before.push(w@));
                assert(before + seq![s@.subrange(start as int, i as int)] =~= before.push(w@));
            }
            in_word = false;
            assert(words_upto(s@, i + 1) == prev);
        } else {
            if in_word {
                assert(prev.drop_last() =~= before);
                assert(prev.last() == s@.subrange(start as int, i as int));
                assert(s@.subrange(start as int, i as int).push(s@[i as int]) =~= s@.subrange(
                    start as int,
                    i + 1,
                ));
                assert(before + seq![s@.subrange(start as int, i + 1)] =~= words_upto(
                    s@,
                    i + 1,
                ));
            } else {
                start = i;
                assert(prev =~= before);
                assert(s@.subrange(i as int, i + 1) =~= seq![s@[i as int]]);
                assert(before + seq![s@.subrange(i as int, i + 1)] =~= words_upto(s@, i + 1));
            }
            in_word = true;
        }
        i = i + 1;
    }
    if in_word {
        let ghost before = string_views(r@);
        let w = String::from_str(s.substring_char(start, n));
        r.push(w);
        assert(string_views(r@) =~= before.push(w@));
    } else {
        assert(string_views(r@) =~= words_upto(s@, n as int));
    }
    r
}

/// Whether `a` and `b` hold the same characters.
pub fn same_text(a: &str, b: &str) -> (r: bool)
    ensures
        r == (a@ == b@),
{
    let n = a.unicode_len();
    let m = b.unicode_len();
    if n != m {
        return false;
    }
    let r = occurs_at_exec(a, b, 0, n, m);
    if r {
        assert(a@.subrange(0, n as int) =~= a@);
    }
    r
}

/// The first position at or after `i` that holds no whitespace, or the length.
pub open spec fn lead_end(s: Seq<char>, i: int) -> int
    decreases s.len() - i,
{
    if i < 0 || i >= s.len() {
        s.len() as int
    } else if is_white_space(s[i]) {
        lead_end(s, i + 1)
    } else {
        i
    }
}

/// The end of the first `j` characters once their trailing whitespace is cut.
pub open spec fn trail_end(s: Seq<char>, j: int) -> int
    decreases j,
{
    if j <= 0 || j > s.len() {
        0
    } else if is_white_space(s[j - 1]) {
        trail_end(s, j - 1)
    } else {
        j
    }
}

/// `s` without its leading and trailing whitespace, as `str::trim` gives it.
pub open spec fn trimmed(s: Seq<char>) -> Seq<char> {
    let a = lead_end(s, 0);
    let b = trail_end(s, s.len() as int);
    if a >= b {
        Seq::empty()
    } else {
        s.subrange(a, b)
    }
}

/// `s` without its leading and trailing whitespace.
pub fn trim_text(s: &str) -> (r: String)
    ensures
        r@ == trimmed(s@),
{
    let n = s.unicode_len();
    let mut a: usize = 0;
    while a < n && is_whitespace(s.get_char(a))
        invariant
            a <= n,
            n == s@.len(),
            lead_end(s@, 0) == lead_end(s@, a as int),
        decreases n - a,
    {
        a = a + 1;
    }
    let mut b: usize = n;
    while b > 0 && is_whitespace(s.get_char(b - 1))
        invariant
            b <= n,
            n == s@.len(),
            trail_end(s@, n as int) == trail_end(s@, b as int),
        decreases b,
    {
        b = b - 1;
    }
    if a >= b {
        String::new()
    } else {
        String::from_str(s.substring_char(a, b))
    }
}

/// The pieces of the first `n` characters of `s` between line breaks.
pub open spec fn lines_upto(s: Seq<char>, n: int) -> Seq<Seq<char>>
    decreases n,
{
    if n <= 0 || n > s.len() {
        seq![Seq::empty()]
    } else {
        let prev = lines_upto(s, n - 1);
        if s[n - 1] == '\n' {
            prev.push(Seq::empty())
        } else {
            prev.drop_last().push(prev.last().push(s[n - 1]))
        }
    }
}

/// The pieces of `s` between line breaks. Unlike `str::lines`, a final empty
/// piece is kept and a carriage return stays in its line.
pub open spec fn lines(s: Seq<char>) -> Seq<Seq<char>> {
    lines_upto(s, s.len() as int)
}

/// The pieces of `s` between line breaks, in order.
pub fn split_lines(s: &str) -> (r: Vec<String>)
    ensures
        string_views(r@) == lines(s@),
{
    let n = s.unicode_len();
    let mut r: Vec<String> = Vec::new();
    let mut start: usize = 0;
    let mut i: usize = 0;
    assert(string_views(r@) =~= Seq::<Seq<char>>::empty());
    assert(s@.subrange(0, 0) =~= Seq::<char>::empty());
    assert(lines_upto(s@, 0) == seq![Seq::<char>::empty()]);
    assert(string_views(r@) + seq![s@.subrange(0, 0)] =~= lines_upto(s@, 0));
    while i < n
        invariant
            i <= n,
            n == s@.len(),
            start <= i,
            string_views(r@) + seq![s@.subrange(start as int, i as int)] == lines_upto(s@, i as int),
        decreases n - i,
    {
        let c = s.get_char(i);
        let ghost prev = lines_upto(s@, i as int);
        let ghost before = string_views(r@);
        if c == '\n' {
            let w = String::from_str(s.substring_char(start, i));
            r.push(w);
            assert(string_views(r@) =~= before.push(w@));
            assert(prev.last() == s@.subrange(start as int, i as int));
            assert(prev =~= before.push(w@));
            assert(s@.subrange(i + 1, i + 1) =~= Seq::<char>::empty());
            start = i + 1;
        } else {
            assert(prev.drop_last() =~= before);
            assert(prev.last() == s@.subrange(start as int, i as int));
            assert(s@.subrange(start as int, i as int).push(s@[i as int]) =~= s@.subrange(
                start as int,
                i + 1,
            ));
        }
        assert(string_views(r@) + seq![s@.subrange(start as int, i + 1)] =~= lines_upto(
            s@,
            i + 1,
        ));
        i = i + 1;
    }
    let ghost before = string_views(r@);
    let w = String::from_str(s.substring_char(start, n));
    r.push(w);
    assert(string_views(r@) =~= before.push(w@));
    r
}

/// `k` is the first position of `c` in `s`.
pub open spec fn first_position(s: Seq<char>, c: char, k: int) -> bool {
    0 <= k < s.len() && s[k] == c && forall|j: int| 0 <= j < k ==> s[j] != c
}

/// The first position of `c` in `s`.
pub fn find_char(s: &str, c: char) -> (r: Option<usize>)
    ensures
        match r {
            Some(k) => first_position(s@, c, k as int),
            None => !s@.contains(c),
        },
{
    let n = s.unicode_len();
    let mut k: usize = 0;
    while k < n
        invariant
            k <= n,
            n == s@.len(),
            forall|j: int| 0 <= j < k ==> s@[j] != c,
        decreases n - k,
    {
        if s.get_char(k) == c {
            return Some(k);
        }
        k = k + 1;
    }
    None
}

} // verus!
