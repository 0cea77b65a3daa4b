//! Small verified text helpers: ASCII case folding, case-insensitive
//! matching and scanning.  Comparisons fold ASCII letters only; device
//! names and key names are ASCII in practice.

use vstd::prelude::*;
use vstd::string::StrSliceExecFns;

verus! {

/// ASCII lower-casing of one character; anything but `A`..`Z` is unchanged.
pub open spec fn lower_char(c: char) -> char {
    if 'A' <= c && c <= 'Z' {
        ((c as u32) + 32) as char
    } else {
        c
    }
}

/// Exec counterpart of `lower_char`.
pub fn lower_char_exec(c: char) -> (r: char)
    ensures
        r == lower_char(c),
{
    if 'A' <= c && c <= 'Z' {
        (((c as u32) + 32) as u8) as char
    } else {
        c
    }
}

/// Character-wise string equality.
pub fn str_eq(a: &str, b: &str) -> (r: bool)
    ensures
        r == (a@ == b@),
{
    let n: usize = a.unicode_len();
    let m: usize = b.unicode_len();
    if n != m {
        return false;
    }
    let mut i: usize = 0;
    while i < n
        invariant
            0 <= i <= n,
            n == a@.len() == b@.len(),
            forall|j: int| 0 <= j < i ==> a@[j] == b@[j],
        decreases n - i,
    {
        if a.get_char(i) != b.get_char(i) {
            return false;
        }
        i = i + 1;
    }
    proof {
        assert(a@ =~= b@);
    }
    true
}

/// `p` is a prefix of `s`, comparing ASCII case-insensitively.
pub open spec fn starts_with_ci(s: Seq<char>, p: Seq<char>) -> bool {
    p.len() <= s.len() && (forall|i: int| 0 <= i < p.len() ==> lower_char(s[i]) == lower_char(p[i]))
}

/// Exec counterpart of `starts_with_ci`.
pub fn starts_with_ci_exec(s: &str, p: &str) -> (r: bool)
    ensures
        r == starts_with_ci(s@, p@),
{
    let n: usize = s.unicode_len();
    let m: usize = p.unicode_len();
    if m > n {
        return false;
    }
    let mut i: usize = 0;
    while i < m
        invariant
            0 <= i <= m,
            m == p@.len() <= n == s@.len(),
            forall|j: int| 0 <= j < i ==> lower_char(s@[j]) == lower_char(p@[j]),
        decreases m - i,
    {
        if lower_char_exec(s.get_char(i)) != lower_char_exec(p.get_char(i)) {
            return false;
        }
        i = i + 1;
    }
    true
}

/// `p` occurs in `s` starting at offset `k`, ASCII case-insensitively.
pub open spec fn matches_ci_at(s: Seq<char>, p: Seq<char>, k: int) -> bool {
    forall|i: int| 0 <= i < p.len() ==> lower_char(s[k + i]) == lower_char(p[i])
}

/// `p` occurs somewhere in `s`, ASCII case-insensitively.
pub open spec fn contains_ci(s: Seq<char>, p: Seq<char>) -> bool {
    exists|k: int| 0 <= k <= s.len() - p.len() && matches_ci_at(s, p, k)
}

/// Exec counterpart of `contains_ci`.
pub fn contains_ci_exec(s: &str, p: &str) -> (r: bool)
    ensures
        r == contains_ci(s@, p@),
{
    let n: usize = s.unicode_len();
    let m: usize = p.unicode_len();
    if m > n {
        return false;
    }
    let mut k: usize = 0;
    while k <= n - m
        invariant
            0 <= k <= n - m + 1,
            m == p@.len() <= n == s@.len(),
            forall|k2: int| 0 <= k2 < k ==> !matches_ci_at(s@, p@, k2),
        decreases n - m + 1 - k,
    {
        let mut i: usize = 0;
        let mut all: bool = true;
        while i < m
            invariant
                0 <= i <= m,
                0 <= k <= n - m,
                m == p@.len() <= n == s@.len(),
                all ==> forall|j: int| 0 <= j < i ==> lower_char(s@[k + j]) == lower_char(p@[j]),
                !all ==> !matches_ci_at(s@, p@, k as int),
            decreases m - i,
        {
            if lower_char_exec(s.get_char(k + i)) != lower_char_exec(p.get_char(i)) {
                proof {
                    assert(!matches_ci_at(s@, p@, k as int));
                }
                all = false;
                i = m;
            } else {
                i = i + 1;
            }
        }
        if all {
            proof {
                assert(matches_ci_at(s@, p@, k as int));
            }
            return true;
        }
        k = k + 1;
    }
    false
}

/// The first occurrence of `c` in `s` at or after `from`, if any.
pub fn find_char(s: &str, from: usize, c: char) -> (r: Option<usize>)
    ensures
        match r {
            Some(i) => from <= i < s@.len() && s@[i as int] == c && (forall|j: int|
                from <= j < i ==> s@[j] != c),
            None => forall|j: int| from <= j < s@.len() ==> s@[j] != c,
        },
{
    let n: usize = s.unicode_len();
    let mut i: usize = from;
    while i < n
        invariant
            from <= i,
            n == s@.len(),
            forall|j: int| from <= j < i ==> s@[j] != c,
        decreases n - i,
    {
        if s.get_char(i) == c {
            return Some(i);
        }
        i = i + 1;
    }
    None
}

/// The two strings are equal, comparing ASCII case-insensitively.
pub open spec fn eq_ci(a: Seq<char>, b: Seq<char>) -> bool {
    a.len() == b.len() && (forall|i: int| 0 <= i < a.len() ==> lower_char(a[i]) == lower_char(b[i]))
}

/// Exec counterpart of `eq_ci`.
pub fn eq_ci_exec(a: &str, b: &str) -> (r: bool)
    ensures
        r == eq_ci(a@, b@),
{
    let n: usize = a.unicode_len();
    let m: usize = b.unicode_len();
    if n != m {
        return false;
    }
    let mut i: usize = 0;
    while i < n
        invariant
            0 <= i <= n,
            n == a@.len() == b@.len(),
            forall|j: int| 0 <= j < i ==> lower_char(a@[j]) == lower_char(b@[j]),
        decreases n - i,
    {
        if lower_char_exec(a.get_char(i)) != lower_char_exec(b.get_char(i)) {
            return false;
        }
        i = i + 1;
    }
    true
}

/// `s` without its leading spaces.
pub open spec fn ltrim(s: Seq<char>) -> Seq<char>
    decreases s.len(),
{
    if s.len() > 0 && s[0] == ' ' {
        ltrim(s.drop_first())
    } else {
        s
    }
}

/// `s` without its trailing spaces.
pub open spec fn rtrim(s: Seq<char>) -> Seq<char>
    decreases s.len(),
{
    if s.len() > 0 && s.last() == ' ' {
        rtrim(s.drop_last())
    } else {
        s
    }
}

/// `s` without leading and trailing spaces.
pub open spec fn trim_spec(s: Seq<char>) -> Seq<char> {
    rtrim(ltrim(s))
}

proof fn lemma_ltrim(s: Seq<char>, k: int)
    requires
        0 <= k <= s.len(),
        forall|j: int| 0 <= j < k ==> s[j] == ' ',
        k == s.len() || s[k] != ' ',
    ensures
        ltrim(s) =~= s.skip(k),
    decreases k,
{
    if k == 0 {
        assert(s.skip(0) =~= s);
    } else {
        lemma_ltrim(s.drop_first(), k - 1);
        assert(s.drop_first().skip(k - 1) =~= s.skip(k));
    }
}

proof fn lemma_rtrim(s: Seq<char>, b: int)
    requires
        0 <= b <= s.len(),
        forall|j: int| b <= j < s.len() ==> s[j] == ' ',
        b == 0 || s[b - 1] != ' ',
    ensures
        rtrim(s) =~= s.take(b),
    decreases s.len(),
{
    if b == s.len() {
        if s.len() > 0 {
            assert(s.take(b) =~= s);
        }
    } else {
        assert(s.last() == ' ');
        lemma_rtrim(s.drop_last(), b);
        assert(s.drop_last().take(b) =~= s.take(b));
    }
}

/// Copy of `s` with leading and trailing spaces removed.
pub fn trim_exec(s: &str) -> (r: String)
    ensures
        r@ == trim_spec(s@),
{
    let n: usize = s.unicode_len();
    let mut a: usize = 0;
    while a < n && s.get_char(a) == ' '
        invariant
            0 <= a <= n,
            n == s@.len(),
            forall|j: int| 0 <= j < a ==> s@[j] == ' ',
        decreases n - a,
    {
        a = a + 1;
    }
    let mut b: usize = n;
    while b > a && s.get_char(b - 1) == ' '
        invariant
            a <= b <= n,
            n == s@.len(),
            forall|j: int| b <= j < n ==> s@[j] == ' ',
        decreases b,
    {
        b = b - 1;
    }
    proof {
        lemma_ltrim(s@, a as int);
        let u = s@.skip(a as int);
        assert(forall|j: int| b - a <= j < u.len() ==> u[j] == ' ');
        lemma_rtrim(u, b - a);
        assert(u.take(b - a) =~= s@.subrange(a as int, b as int));
    }
    s.substring_char(a, b).to_owned()
}

/// Index of the first occurrence of `c` in `s`, or -1.
pub open spec fn find_index(s: Seq<char>, c: char) -> int
    decreases s.len(),
{
    if s.len() == 0 {
        -1
    } else if s[0] == c {
        0
    } else {
        let r = find_index(s.drop_first(), c);
        if r < 0 {
            -1
        } else {
            r + 1
        }
    }
}

/// What `find_index` finds is the first occurrence.
pub proof fn lemma_find_index(s: Seq<char>, c: char)
    ensures
        find_index(s, c) < 0 ==> forall|j: int| 0 <= j < s.len() ==> s[j] != c,
        find_index(s, c) >= 0 ==> 0 <= find_index(s, c) < s.len() && s[find_index(s, c)] == c && (
        forall|j: int| 0 <= j < find_index(s, c) ==> s[j] != c),
    decreases s.len(),
{
    if s.len() > 0 && s[0] != c {
        lemma_find_index(s.drop_first(), c);
        let r = find_index(s.drop_first(), c);
        if r < 0 {
            assert forall|j: int| 0 <= j < s.len() implies s[j] != c by {
                if j > 0 {
                    assert(s.drop_first()[j - 1] == s[j]);
                }
            }
        } else {
            assert(s.drop_first()[r] == s[r + 1]);
            assert forall|j: int| 0 <= j < r + 1 implies s[j] != c by {
                if j > 0 {
                    assert(s.drop_first()[j - 1] == s[j]);
                }
            }
        }
    }
}

} // verus!
