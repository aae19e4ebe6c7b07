//! Verified helpers over `&str` and its `Seq<char>` view: prefix and suffix
//! tests, substring search, character-class scans, trimming, and ASCII
//! case-insensitive comparison.

use vstd::prelude::*;

verus! {

/// A character allowed in a host name: ASCII alphanumeric, `.`, or `-`.
pub open spec fn is_host_char_spec(c: char) -> bool {
    ||| 'a' <= c && c <= 'z'
    ||| 'A' <= c && c <= 'Z'
    ||| '0' <= c && c <= '9'
    ||| c == '.'
    ||| c == '-'
}

/// Every character of `s` is a host character.
pub open spec fn is_host_seq(s: Seq<char>) -> bool {
    forall|i: int| 0 <= i < s.len() ==> is_host_char_spec(#[trigger] s[i])
}

/// An ASCII decimal digit.
pub open spec fn is_digit_spec(c: char) -> bool {
    '0' <= c && c <= '9'
}

/// A whitespace character, as Rust's `char::is_whitespace` defines it:
/// the characters with the Unicode `White_Space` property.
pub open spec fn is_space_spec(c: char) -> bool {
    ||| c == ' '
    ||| c == '\t'
    ||| c == '\n'
    ||| c == '\r'
    ||| c == '\u{b}'
    ||| c == '\u{c}'
    ||| c == '\u{85}'
    ||| c == '\u{a0}'
    ||| c == '\u{1680}'
    ||| '\u{2000}' <= c && c <= '\u{200a}'
    ||| c == '\u{2028}'
    ||| c == '\u{2029}'
    ||| c == '\u{202f}'
    ||| c == '\u{205f}'
    ||| c == '\u{3000}'
}

/// `p` occurs in `s` at position `i`.
pub open spec fn occurs_at(s: Seq<char>, p: Seq<char>, i: int) -> bool {
    0 <= i && i + p.len() <= s.len() && s.subrange(i, i + p.len()) == p
}

/// `p` is a prefix of `s`.
pub open spec fn is_prefix(p: Seq<char>, s: Seq<char>) -> bool {
    occurs_at(s, p, 0)
}

/// `p` is a suffix of `s`.
pub open spec fn is_suffix(p: Seq<char>, s: Seq<char>) -> bool {
    p.len() <= s.len() && s.subrange(s.len() - p.len(), s.len() as int) == p
}

/// Decides whether `c` is a host character.
pub fn host_char(c: char) -> (r: bool)
    ensures
        r == is_host_char_spec(c),
{
    ('a' <= c && c <= 'z') || ('A' <= c && c <= 'Z') || ('0' <= c && c <= '9') || c == '.' || c
        == '-'
}

/// Decides whether `c` is an ASCII decimal digit.
pub fn digit_char(c: char) -> (r: bool)
    ensures
        r == is_digit_spec(c),
{
    '0' <= c && c <= '9'
}

/// Decides whether `c` is a whitespace character.
pub fn space_char(c: char) -> (r: bool)
    ensures
        r == is_space_spec(c),
{
    c == ' ' || c == '\t' || c == '\n' || c == '\r' || c == '\u{b}' || c == '\u{c}' || c == '\u{85}'
        || c == '\u{a0}' || c == '\u{1680}' || ('\u{2000}' <= c && c <= '\u{200a}') || c
        == '\u{2028}' || c == '\u{2029}' || c == '\u{202f}' || c == '\u{205f}' || c == '\u{3000}'
}

/// Decides whether `p` is a prefix of `s`.
pub fn starts_with(s: &str, p: &str) -> (r: bool)
    ensures
        r == is_prefix(p@, s@),
{
    let n = s.unicode_len();
    let m = p.unicode_len();
    if m > n {
        assert(!is_prefix(p@, s@));
        return false;
    }
    let mut i: usize = 0;
    while i < m
        invariant
            i <= m,
            m <= n,
            n == s@.len(),
            m == p@.len(),
            forall|j: int| 0 <= j < i ==> s@[j] == p@[j],
        decreases m - i,
    {
        if s.get_char(i) != p.get_char(i) {
            assert(s@.subrange(0, m as int)[i as int] != p@[i as int]);
            return false;
        }
        i = i + 1;
    }
    assert(s@.subrange(0, m as int) =~= p@);
    true
}

/// Decides whether `p` is a suffix of `s`.
pub fn ends_with(s: &str, p: &str) -> (r: bool)
    ensures
        r == is_suffix(p@, s@),
{
    let n = s.unicode_len();
    let m = p.unicode_len();
    if m > n {
        assert(!is_suffix(p@, s@));
        return false;
    }
    let off = n - m;
    let mut i: usize = 0;
    while i < m
        invariant
            i <= m,
            off == n - m,
            m <= n,
            n == s@.len(),
            m == p@.len(),
            forall|j: int| 0 <= j < i ==> s@[off + j] == p@[j],
        decreases m - i,
    {
        if s.get_char(off + i) != p.get_char(i) {
            assert(s@.subrange(off as int, n as int)[i as int] != p@[i as int]);
            return false;
        }
        i = i + 1;
    }
    assert(s@.subrange(off as int, n as int) =~= p@);
    true
}

/// The first position at or after `i` where `p` occurs in `s`.
pub open spec fn first_occurrence_from(s: Seq<char>, p: Seq<char>, i: int) -> Option<int>
    decreases s.len() - i + 1,
{
    if i < 0 || i + p.len() > s.len() {
        None
    } else if occurs_at(s, p, i) {
        Some(i)
    } else {
        first_occurrence_from(s, p, i + 1)
    }
}

/// The first position where `p` occurs in `s`.
pub open spec fn first_occurrence(s: Seq<char>, p: Seq<char>) -> Option<int> {
    first_occurrence_from(s, p, 0)
}

/// Decides whether `p` occurs in `s` at position `i`.
fn matches_at(s: &str, p: &str, i: usize) -> (r: bool)
    requires
        i + p@.len() <= s@.len(),
    ensures
        r == occurs_at(s@, p@, i as int),
{
    let n = s.unicode_len();
    let m = p.unicode_len();
    let mut j: usize = 0;
    while j < m
        invariant
            j <= m,
            m == p@.len(),
            n == s@.len(),
            i + m <= n,
            forall|k: int| 0 <= k < j ==> s@[i + k] == p@[k],
        decreases m - j,
    {
        if s.get_char(i + j) != p.get_char(j) {
            assert(s@.subrange(i as int, i + m)[j as int] != p@[j as int]);
            return false;
        }
        j = j + 1;
    }
    assert(s@.subrange(i as int, i + m) =~= p@);
    true
}

/// Finds the first occurrence of `p` in `s`, as a character index.
pub fn find_sub(s: &str, p: &str) -> (r: Option<usize>)
    ensures
        match r {
            Some(i) => first_occurrence(s@, p@) == Some(i as int),
            None => first_occurrence(s@, p@) is None,
        },
{
    let n = s.unicode_len();
    let m = p.unicode_len();
    if m > n {
        return None;
    }
    let mut i: usize = 0;
    while i < n - m
        invariant
            m <= n,
            n == s@.len(),
            m == p@.len(),
            i <= n - m,
            first_occurrence(s@, p@) == first_occurrence_from(s@, p@, i as int),
        decreases n - m - i,
    {
        if matches_at(s, p, i) {
            return Some(i);
        }
        assert(first_occurrence_from(s@, p@, i as int) == first_occurrence_from(
            s@,
            p@,
            i as int + 1,
        ));
        i = i + 1;
    }
    if matches_at(s, p, i) {
        return Some(i);
    }
    assert(first_occurrence_from(s@, p@, i as int) == first_occurrence_from(s@, p@, i as int + 1));
    assert(first_occurrence_from(s@, p@, i as int + 1) is None);
    None
}

/// The first position at or after `i` whose character is not whitespace,
/// or the length of `s` if the run of whitespace reaches the end.
pub open spec fn space_run_end(s: Seq<char>, i: int) -> int
    decreases s.len() - i,
{
    if !(0 <= i < s.len()) {
        s.len() as int
    } else if is_space_spec(s[i]) {
        space_run_end(s, i + 1)
    } else {
        i
    }
}

/// The first position at or after `i` whose character is not a host
/// character, or the length of `s` if the run reaches the end.
pub open spec fn host_run_end(s: Seq<char>, i: int) -> int
    decreases s.len() - i,
{
    if !(0 <= i < s.len()) {
        s.len() as int
    } else if is_host_char_spec(s[i]) {
        host_run_end(s, i + 1)
    } else {
        i
    }
}

/// The first position at or after `i` whose character is not a decimal
/// digit, or the length of `s` if the run reaches the end.
pub open spec fn digit_run_end(s: Seq<char>, i: int) -> int
    decreases s.len() - i,
{
    if !(0 <= i < s.len()) {
        s.len() as int
    } else if is_digit_spec(s[i]) {
        digit_run_end(s, i + 1)
    } else {
        i
    }
}

/// The position after the run of whitespace beginning at `from`.
pub fn skip_spaces(s: &str, from: usize) -> (r: usize)
    requires
        from <= s@.len(),
    ensures
        r == space_run_end(s@, from as int),
        from <= r <= s@.len(),
{
    let n = s.unicode_len();
    let mut i: usize = from;
    while i < n
        invariant
            from <= i <= n,
            n == s@.len(),
            space_run_end(s@, from as int) == space_run_end(s@, i as int),
        decreases n - i,
    {
        let c = s.get_char(i);
        if !space_char(c) {
            assert(space_run_end(s@, i as int) == i);
            return i;
        }
        assert(space_run_end(s@, i as int) == space_run_end(s@, i + 1 as int));
        i = i + 1;
    }
    assert(space_run_end(s@, i as int) == i);
    i
}

/// The position after the run of host characters beginning at `from`.
pub fn scan_host_chars(s: &str, from: usize) -> (r: usize)
    requires
        from <= s@.len(),
    ensures
        r == host_run_end(s@, from as int),
        from <= r <= s@.len(),
{
    let n = s.unicode_len();
    let mut i: usize = from;
    while i < n
        invariant
            from <= i <= n,
            n == s@.len(),
            host_run_end(s@, from as int) == host_run_end(s@, i as int),
        decreases n - i,
    {
        let c = s.get_char(i);
        if !host_char(c) {
            assert(host_run_end(s@, i as int) == i);
            return i;
        }
        assert(host_run_end(s@, i as int) == host_run_end(s@, i + 1 as int));
        i = i + 1;
    }
    assert(host_run_end(s@, i as int) == i);
    i
}

/// The position after the run of decimal digits beginning at `from`.
pub fn scan_digits(s: &str, from: usize) -> (r: usize)
    requires
        from <= s@.len(),
    ensures
        r == digit_run_end(s@, from as int),
        from <= r <= s@.len(),
{
    let n = s.unicode_len();
    let mut i: usize = from;
    while i < n
        invariant
            from <= i <= n,
            n == s@.len(),
            digit_run_end(s@, from as int) == digit_run_end(s@, i as int),
        decreases n - i,
    {
        let c = s.get_char(i);
        if !digit_char(c) {
            assert(digit_run_end(s@, i as int) == i);
            return i;
        }
        assert(digit_run_end(s@, i as int) == digit_run_end(s@, i + 1 as int));
        i = i + 1;
    }
    assert(digit_run_end(s@, i as int) == i);
    i
}

/// A character the normalizer strips from the ends of a query: a dot or
/// whitespace.
pub open spec fn is_trim_char(c: char) -> bool {
    c == '.' || is_space_spec(c)
}

/// The first position at or after `i` whose character is not a trim
/// character, or the length of `s` if the run reaches the end.
pub open spec fn trim_run_end(s: Seq<char>, i: int) -> int
    decreases s.len() - i,
{
    if !(0 <= i < s.len()) {
        s.len() as int
    } else if is_trim_char(s[i]) {
        trim_run_end(s, i + 1)
    } else {
        i
    }
}

/// The start of the run of trim characters that ends at `j`: the least
/// position `k` such that every character in `k .. j` is a trim character.
pub open spec fn trim_run_start(s: Seq<char>, j: int) -> int
    decreases j,
{
    if j <= 0 || j > s.len() {
        0
    } else if is_trim_char(s[j - 1]) {
        trim_run_start(s, j - 1)
    } else {
        j
    }
}

/// `s` with dots and whitespace removed from both ends.
pub open spec fn trim_spec(s: Seq<char>) -> Seq<char> {
    let a = trim_run_end(s, 0);
    let b = trim_run_start(s, s.len() as int);
    if a < b {
        s.subrange(a, b)
    } else {
        Seq::empty()
    }
}

/// Bounds and boundary characters of `trim_run_end`.
pub proof fn lemma_trim_run_end(s: Seq<char>, i: int)
    requires
        0 <= i <= s.len(),
    ensures
        i <= trim_run_end(s, i) <= s.len(),
        trim_run_end(s, i) < s.len() ==> !is_trim_char(s[trim_run_end(s, i)]),
    decreases s.len() - i,
{
    if i < s.len() && is_trim_char(s[i]) {
        lemma_trim_run_end(s, i + 1);
    }
}

/// Bounds and boundary characters of `trim_run_start`.
pub proof fn lemma_trim_run_start(s: Seq<char>, j: int)
    requires
        0 <= j <= s.len(),
    ensures
        0 <= trim_run_start(s, j) <= j,
        trim_run_start(s, j) > 0 ==> !is_trim_char(s[trim_run_start(s, j) - 1]),
    decreases j,
{
    if 0 < j <= s.len() && is_trim_char(s[j - 1]) {
        lemma_trim_run_start(s, j - 1);
    }
}

/// A sequence whose end characters are not trim characters is unchanged
/// by trimming.
pub proof fn lemma_trim_fixed(s: Seq<char>)
    requires
        s.len() > 0 ==> !is_trim_char(s[0]) && !is_trim_char(s[s.len() - 1]),
    ensures
        trim_spec(s) == s,
{
    if s.len() == 0 {
        assert(trim_spec(s) =~= s);
    } else {
        assert(trim_run_end(s, 0) == 0);
        assert(trim_run_start(s, s.len() as int) == s.len());
        assert(trim_spec(s) =~= s);
    }
}

/// The trimmed sequence has no trim character at either end.
pub proof fn lemma_trim_spec_ends(s: Seq<char>)
    ensures
        trim_spec(s).len() > 0 ==> !is_trim_char(trim_spec(s)[0]) && !is_trim_char(
            trim_spec(s)[trim_spec(s).len() - 1],
        ),
{
    lemma_trim_run_end(s, 0);
    lemma_trim_run_start(s, s.len() as int);
    let a = trim_run_end(s, 0);
    let b = trim_run_start(s, s.len() as int);
    if a < b {
        assert(trim_spec(s)[0] == s[a]);
        assert(trim_spec(s)[trim_spec(s).len() - 1] == s[b - 1]);
    }
}

/// Decides whether `c` is a trim character.
pub fn trim_char(c: char) -> (r: bool)
    ensures
        r == is_trim_char(c),
{
    c == '.' || space_char(c)
}

/// The position after the run of trim characters beginning at the start.
fn scan_trim_start(s: &str) -> (r: usize)
    ensures
        r == trim_run_end(s@, 0),
        r <= s@.len(),
{
    let n = s.unicode_len();
    let mut i: usize = 0;
    while i < n
        invariant
            i <= n,
            n == s@.len(),
            trim_run_end(s@, 0) == trim_run_end(s@, i as int),
        decreases n - i,
    {
        let c = s.get_char(i);
        if !trim_char(c) {
            assert(trim_run_end(s@, i as int) == i);
            return i;
        }
        assert(trim_run_end(s@, i as int) == trim_run_end(s@, i as int + 1));
        i = i + 1;
    }
    assert(trim_run_end(s@, i as int) == i);
    i
}

/// The start of the run of trim characters ending at the end of `s`.
fn scan_trim_end(s: &str) -> (r: usize)
    ensures
        r == trim_run_start(s@, s@.len() as int),
        r <= s@.len(),
{
    let n = s.unicode_len();
    let mut j: usize = n;
    while j > 0
        invariant
            j <= n,
            n == s@.len(),
            trim_run_start(s@, n as int) == trim_run_start(s@, j as int),
        decreases j,
    {
        let c = s.get_char(j - 1);
        if !trim_char(c) {
            assert(trim_run_start(s@, j as int) == j);
            return j;
        }
        assert(trim_run_start(s@, j as int) == trim_run_start(s@, j as int - 1));
        j = j - 1;
    }
    assert(trim_run_start(s@, j as int) == j);
    j
}

/// `s` with dots and whitespace removed from both ends.
pub fn trim_host(s: &str) -> (r: &str)
    ensures
        r@ == trim_spec(s@),
{
    let a = scan_trim_start(s);
    let b = scan_trim_end(s);
    if a < b {
        s.substring_char(a, b)
    } else {
        let r = s.substring_char(0, 0);
        assert(r@ =~= trim_spec(s@));
        r
    }
}

/// The numeric code of `c` with an ASCII upper-case letter folded to its
/// lower-case form.
pub open spec fn lower_code(c: char) -> int {
    if 'A' <= c && c <= 'Z' {
        c as int + 32
    } else {
        c as int
    }
}

/// `a` and `b` are equal up to ASCII case.
pub open spec fn eq_ci_seq(a: Seq<char>, b: Seq<char>) -> bool {
    a.len() == b.len() && forall|i: int| 0 <= i < a.len() ==> lower_code(a[i]) == lower_code(b[i])
}

/// Decides whether `a` and `b` are equal up to ASCII case.
pub fn eq_ignore_case(a: &str, b: &str) -> (r: bool)
    ensures
        r == eq_ci_seq(a@, b@),
{
    let n = a.unicode_len();
    let m = b.unicode_len();
    if n != m {
        return false;
    }
    let mut i: usize = 0;
    while i < n
        invariant
            i <= n,
            n == a@.len(),
            n == b@.len(),
            forall|j: int| 0 <= j < i ==> lower_code(a@[j]) == lower_code(b@[j]),
        decreases n - i,
    {
        let ca = a.get_char(i);
        let cb = b.get_char(i);
        let va: u32 = if 'A' <= ca && ca <= 'Z' {
            ca as u32 + 32
        } else {
            ca as u32
        };
        let vb: u32 = if 'A' <= cb && cb <= 'Z' {
            cb as u32 + 32
        } else {
            cb as u32
        };
        if va != vb {
            return false;
        }
        i = i + 1;
    }
    true
}

/// Decides whether every character of `s` is a host character.
pub fn all_host_chars(s: &str) -> (r: bool)
    ensures
        r == is_host_seq(s@),
{
    let n = s.unicode_len();
    let e = scan_host_chars(s, 0);
    proof {
        lemma_host_run_end_chars(s@, 0);
    }
    e == n
}

/// Every position in `i .. host_run_end(s, i)` holds a host character, and
/// the run ends either at the end of `s` or at a non-host character.
pub proof fn lemma_host_run_end_chars(s: Seq<char>, i: int)
    requires
        0 <= i <= s.len(),
    ensures
        i <= host_run_end(s, i) <= s.len(),
        forall|j: int| i <= j < host_run_end(s, i) ==> is_host_char_spec(#[trigger] s[j]),
        host_run_end(s, i) < s.len() ==> !is_host_char_spec(s[host_run_end(s, i)]),
    decreases s.len() - i,
{
    if i < s.len() && is_host_char_spec(s[i]) {
        lemma_host_run_end_chars(s, i + 1);
    }
}

/// Decides whether `s` contains the character `c`.
pub fn contains_char(s: &str, c: char) -> (r: bool)
    ensures
        r == s@.contains(c),
{
    let n = s.unicode_len();
    let mut i: usize = 0;
    while i < n
        invariant
            i <= n,
            n == s@.len(),
            forall|j: int| 0 <= j < i ==> s@[j] != c,
        decreases n - i,
    {
        if s.get_char(i) == c {
            assert(s@[i as int] == c);
            return true;
        }
        i = i + 1;
    }
    false
}

/// Decides whether the contents of `a` and `b` are equal.
pub fn str_eq(a: &str, b: &str) -> (r: bool)
    ensures
        r == (a@ == b@),
{
    let n = a.unicode_len();
    let m = b.unicode_len();
    if n != m {
        return false;
    }
    let mut i: usize = 0;
    while i < n
        invariant
            i <= n,
            n == a@.len(),
            n == b@.len(),
            forall|j: int| 0 <= j < i ==> a@[j] == b@[j],
        decreases n - i,
    {
        if a.get_char(i) != b.get_char(i) {
            return false;
        }
        i = i + 1;
    }
    assert(a@ =~= b@);
    true
}

/// The largest position before `j` holding a space, or `-1` if there is
/// none.
pub open spec fn last_space_before(s: Seq<char>, j: int) -> int
    decreases j,
{
    if j <= 0 || j > s.len() {
        -1
    } else if s[j - 1] == ' ' {
        j - 1
    } else {
        last_space_before(s, j - 1)
    }
}

/// The position of the last space in `s`, or `-1` if there is none.
pub open spec fn last_space(s: Seq<char>) -> int {
    last_space_before(s, s.len() as int)
}

/// When `s` contains a space, `last_space` names the last one.
pub proof fn lemma_last_space_props(s: Seq<char>)
    requires
        s.contains(' '),
    ensures
        0 <= last_space(s) < s.len(),
        s[last_space(s)] == ' ',
        forall|m: int| last_space(s) < m < s.len() ==> s[m] != ' ',
{
    lemma_last_space_before_props(s, s.len() as int);
}

proof fn lemma_last_space_before_props(s: Seq<char>, j: int)
    requires
        0 <= j <= s.len(),
        exists|i: int| 0 <= i < j && s[i] == ' ',
    ensures
        0 <= last_space_before(s, j) < j,
        s[last_space_before(s, j)] == ' ',
        forall|m: int| last_space_before(s, j) < m < j ==> s[m] != ' ',
    decreases j,
{
    if j > 0 && s[j - 1] != ' ' {
        assert(exists|i: int| 0 <= i < j - 1 && s[i] == ' ') by {
            let i = choose|i: int| 0 <= i < j && s[i] == ' ';
            assert(0 <= i < j - 1 && s[i] == ' ');
        }
        lemma_last_space_before_props(s, j - 1);
    }
}

/// A position that holds a space and is followed by none is the last
/// space.
pub proof fn lemma_last_space_unique(s: Seq<char>, k: int)
    requires
        0 <= k < s.len(),
        s[k] == ' ',
        forall|m: int| k < m < s.len() ==> s[m] != ' ',
    ensures
        last_space(s) == k,
{
    lemma_last_space_before_unique(s, s.len() as int, k);
}

proof fn lemma_last_space_before_unique(s: Seq<char>, j: int, k: int)
    requires
        0 <= k < j <= s.len(),
        s[k] == ' ',
        forall|m: int| k < m < j ==> s[m] != ' ',
    ensures
        last_space_before(s, j) == k,
    decreases j,
{
    if j - 1 > k {
        lemma_last_space_before_unique(s, j - 1, k);
    }
}

/// Finds the position of the last space in `s`.
pub fn find_last_space(s: &str) -> (r: usize)
    requires
        s@.contains(' '),
    ensures
        r as int == last_space(s@),
        r < s@.len(),
{
    let n = s.unicode_len();
    proof {
        lemma_last_space_props(s@);
    }
    let mut j: usize = n;
    while j > 0
        invariant
            j <= n,
            n == s@.len(),
            last_space_before(s@, n as int) == last_space_before(s@, j as int),
        decreases j,
    {
        let c = s.get_char(j - 1);
        if c == ' ' {
            assert(last_space_before(s@, j as int) == j - 1);
            return j - 1;
        }
        assert(last_space_before(s@, j as int) == last_space_before(s@, j as int - 1));
        j = j - 1;
    }
    proof {
        assert(last_space_before(s@, 0) == -1);
        assert(false);
    }
    0
}

/// A host character is not a trim character unless it is the dot.
pub proof fn lemma_host_char_not_trim(c: char)
    requires
        is_host_char_spec(c),
        c != '.',
    ensures
        !is_trim_char(c),
{
}

} // verus!
