//! Release-version comparison and platform asset naming for self-update.
//! The network and file replacement steps live outside the library; what
//! is verified is the decision: which release is newer, and which asset
//! belongs to a platform.

use vstd::prelude::*;
use vstd::string::StrSliceExecFns;

use crate::strutil::{find_char, find_index, lemma_find_index, str_eq};

verus! {

broadcast use vstd::string::group_string_axioms;

pub open spec fn is_digit(c: char) -> bool {
    '0' <= c && c <= '9'
}

pub open spec fn digit_of(c: char) -> int {
    c as int - 48
}

/// The value of a digit string, most significant digit first.
pub open spec fn digits_val(s: Seq<char>) -> int
    decreases s.len(),
{
    if s.len() == 0 {
        0
    } else {
        digits_val(s.drop_last()) * 10 + digit_of(s.last())
    }
}

pub open spec fn all_digits(s: Seq<char>) -> bool {
    forall|i: int| 0 <= i < s.len() ==> is_digit(#[trigger] s[i])
}

/// A version component that contributes a number: non-empty, all digits,
/// and within the 64-bit range (anything else is skipped, as a lenient
/// parser does).
pub open spec fn numeric_component(s: Seq<char>) -> bool {
    s.len() > 0 && all_digits(s) && digits_val(s) <= u64::MAX
}

/// The string with every leading `v` removed.
pub open spec fn strip_vs(s: Seq<char>) -> Seq<char>
    decreases s.len(),
{
    if s.len() > 0 && s[0] == 'v' {
        strip_vs(s.drop_first())
    } else {
        s
    }
}

/// The numeric values of the dot-separated components, in order.
pub open spec fn parts_from(t: Seq<char>) -> Seq<int>
    decreases t.len(),
{
    let i = find_index(t, '.');
    if !(0 <= i < t.len()) {
        if numeric_component(t) {
            seq![digits_val(t)]
        } else {
            Seq::empty()
        }
    } else {
        (if numeric_component(t.take(i)) {
            seq![digits_val(t.take(i))]
        } else {
            Seq::empty()
        }) + parts_from(t.skip(i + 1))
    }
}

/// The parsed version: leading `v`s stripped, split on dots, numeric
/// components kept.
pub open spec fn version_parts(s: Seq<char>) -> Seq<int> {
    parts_from(strip_vs(s))
}

/// `lat` is strictly newer than `cur`, comparing components left to right
/// with missing components read as zero.
pub open spec fn newer_than(cur: Seq<int>, lat: Seq<int>) -> bool
    decreases cur.len() + lat.len(),
{
    if cur.len() == 0 && lat.len() == 0 {
        false
    } else {
        let c0 = if cur.len() > 0 {
            cur[0]
        } else {
            0
        };
        let l0 = if lat.len() > 0 {
            lat[0]
        } else {
            0
        };
        if l0 > c0 {
            true
        } else if l0 < c0 {
            false
        } else {
            newer_than(
                if cur.len() > 0 {
                    cur.drop_first()
                } else {
                    cur
                },
                if lat.len() > 0 {
                    lat.drop_first()
                } else {
                    lat
                },
            )
        }
    }
}

proof fn lemma_digits_val_nonneg(s: Seq<char>)
    requires
        all_digits(s),
    ensures
        digits_val(s) >= 0,
    decreases s.len(),
{
    if s.len() > 0 {
        assert(all_digits(s.drop_last()));
        lemma_digits_val_nonneg(s.drop_last());
    }
}

proof fn lemma_digits_val_extend(s: Seq<char>, k: int)
    requires
        all_digits(s),
        0 <= k <= s.len(),
    ensures
        digits_val(s.take(k)) <= digits_val(s),
    decreases s.len() - k,
{
    if k < s.len() {
        lemma_digits_val_extend(s, k + 1);
        assert(s.take(k + 1).drop_last() =~= s.take(k));
        assert(s.take(k + 1).last() == s[k]);
        assert(all_digits(s.take(k)));
        lemma_digits_val_nonneg(s.take(k));
        assert(digits_val(s.take(k + 1)) == digits_val(s.take(k)) * 10 + digit_of(s[k]));
        assert(digits_val(s.take(k)) * 10 >= digits_val(s.take(k))) by (nonlinear_arith)
            requires
                digits_val(s.take(k)) >= 0,
        ;
    } else {
        assert(s.take(k) =~= s);
    }
}

/// Parse one component: its value if it is numeric, `None` otherwise.
fn parse_component(s: &str) -> (r: Option<u64>)
    ensures
        r matches Some(v) ==> numeric_component(s@) && v as int == digits_val(s@),
        r is None ==> !numeric_component(s@),
{
    let n: usize = s.unicode_len();
    if n == 0 {
        return None;
    }
    let mut acc: u64 = 0;
    let mut i: usize = 0;
    while i < n
        invariant
            0 <= i <= n,
            n == s@.len(),
            all_digits(s@.take(i as int)),
            acc as int == digits_val(s@.take(i as int)),
        decreases n - i,
    {
        let c: char = s.get_char(i);
        if !('0' <= c && c <= '9') {
            return None;
        }
        let d: u64 = (c as u32 as u64) - 48;
        proof {
            assert(all_digits(s@.take(i as int + 1)));
            assert(s@.take(i as int + 1).drop_last() =~= s@.take(i as int));
            assert(s@.take(i as int + 1).last() == s@[i as int]);
        }
        if acc > (u64::MAX - d) / 10 {
            proof {
                vstd::arithmetic::div_mod::lemma_fundamental_div_mod((u64::MAX - d) as int, 10);
                vstd::arithmetic::div_mod::lemma_mod_bound((u64::MAX - d) as int, 10);
                assert(acc as int * 10 + d > u64::MAX) by (nonlinear_arith)
                    requires
                        acc as int > ((u64::MAX - d) as int) / 10,
                        0 <= d <= 9,
                        (u64::MAX - d) as int == 10 * (((u64::MAX - d) as int) / 10) + ((u64::MAX
                            - d) as int) % 10,
                        0 <= ((u64::MAX - d) as int) % 10 < 10,
                ;
                if all_digits(s@) {
                    lemma_digits_val_extend(s@, i as int + 1);
                }
            }
            return None;
        }
        acc = acc * 10 + d;
        i = i + 1;
    }
    proof {
        assert(s@.take(n as int) =~= s@);
    }
    Some(acc)
}

/// Parse a version string into its numeric components.
pub fn parse_version(s: &str) -> (r: Vec<u64>)
    ensures
        r@.map_values(|x: u64| x as int) =~= version_parts(s@),
{
    let n: usize = s.unicode_len();
    let mut start: usize = 0;
    while start < n && s.get_char(start) == 'v'
        invariant
            0 <= start <= n,
            n == s@.len(),
            forall|j: int| 0 <= j < start ==> s@[j] == 'v',
        decreases n - start,
    {
        start = start + 1;
    }
    proof {
        lemma_strip_vs(s@, start as int);
    }
    let tail: &str = s.substring_char(start, n);
    let m: usize = n - start;
    let mut r: Vec<u64> = Vec::new();
    let mut pos: usize = 0;
    let mut more: bool = true;
    proof {
        assert(tail@.skip(0) =~= tail@);
        assert(r@.map_values(|x: u64| x as int) =~= Seq::<int>::empty());
    }
    while more
        invariant
            0 <= pos <= m,
            m == tail@.len(),
            tail@ == strip_vs(s@),
            more ==> version_parts(s@) =~= r@.map_values(|x: u64| x as int) + parts_from(
                tail@.skip(pos as int),
            ),
            !more ==> version_parts(s@) =~= r@.map_values(|x: u64| x as int),
        decreases m - pos + (if more {
            1int
        } else {
            0int
        }),
    {
        let ghost u = tail@.skip(pos as int);
        let found: Option<usize> = find_char(tail, pos, '.');
        let (end, has_dot): (usize, bool) = match found {
            Some(e) => (e, true),
            None => (m, false),
        };
        proof {
            lemma_find_index(u, '.');
            if has_dot {
                assert(u[end - pos] == '.');
                assert(forall|j: int| 0 <= j < end - pos ==> u[j] != '.');
                assert(find_index(u, '.') == end - pos);
            } else {
                assert(forall|j: int| 0 <= j < u.len() ==> u[j] != '.');
                assert(find_index(u, '.') < 0);
            }
        }
        let comp: &str = tail.substring_char(pos, end);
        let ghost r0 = r@;
        proof {
            if has_dot {
                assert(comp@ =~= u.take(end - pos));
                assert(u.skip(end - pos + 1) =~= tail@.skip(end as int + 1));
                assert(parts_from(u) == (if numeric_component(comp@) {
                    seq![digits_val(comp@)]
                } else {
                    Seq::<int>::empty()
                }) + parts_from(tail@.skip(end as int + 1)));
            } else {
                assert(comp@ =~= u);
                assert(parts_from(u) == (if numeric_component(comp@) {
                    seq![digits_val(comp@)]
                } else {
                    Seq::<int>::empty()
                }));
            }
        }
        match parse_component(comp) {
            Some(v) => {
                r.push(v);
                proof {
                    assert(r@ =~= r0.push(v));
                    assert(r@.map_values(|x: u64| x as int) =~= r0.map_values(
                        |x: u64| x as int,
                    ).push(v as int));
                    assert(seq![digits_val(comp@)] =~= seq![v as int]);
                    if has_dot {
                        assert(r0.map_values(|x: u64| x as int).push(v as int) + parts_from(
                            tail@.skip(end as int + 1),
                        ) =~= r0.map_values(|x: u64| x as int) + (seq![v as int] + parts_from(
                            tail@.skip(end as int + 1),
                        )));
                    } else {
                        assert(r0.map_values(|x: u64| x as int).push(v as int) =~= r0.map_values(
                            |x: u64| x as int,
                        ) + seq![v as int]);
                    }
                }
            },
            None => {
                proof {
                    if has_dot {
                        assert(parts_from(u) =~= parts_from(tail@.skip(end as int + 1)));
                    } else {
                        assert(parts_from(u) =~= Seq::<int>::empty());
                    }
                }
            },
        }
        if has_dot {
            pos = end + 1;
        } else {
            more = false;
        }
    }
    r
}

/// How many components the longer version has.
fn max_len(a: usize, b: usize) -> (r: usize)
    ensures
        r == if a >= b {
            a as int
        } else {
            b as int
        },
{
    if a >= b {
        a
    } else {
        b
    }
}

/// The tail of `s` from `i`, empty once `i` passes the end.
pub open spec fn tail_from(s: Seq<int>, i: int) -> Seq<int> {
    if 0 <= i < s.len() {
        s.skip(i)
    } else {
        Seq::empty()
    }
}

/// Compare two semver-like version strings; true when `latest` is
/// strictly newer than `current`.  Missing components count as zero, and
/// a leading `v` on either side is ignored.
pub fn is_newer(current: &str, latest: &str) -> (r: bool)
    ensures
        r == newer_than(version_parts(current@), version_parts(latest@)),
{
    let cur: Vec<u64> = parse_version(current);
    let lat: Vec<u64> = parse_version(latest);
    let ghost a = cur@.map_values(|x: u64| x as int);
    let ghost b = lat@.map_values(|x: u64| x as int);
    let top: usize = max_len(cur.len(), lat.len());
    let mut i: usize = 0;
    proof {
        assert(tail_from(a, 0) =~= a);
        assert(tail_from(b, 0) =~= b);
    }
    while i < top
        invariant
            0 <= i <= top,
            a =~= cur@.map_values(|x: u64| x as int),
            b =~= lat@.map_values(|x: u64| x as int),
            a =~= version_parts(current@),
            b =~= version_parts(latest@),
            top == if cur@.len() >= lat@.len() {
                cur@.len() as int
            } else {
                lat@.len() as int
            },
            newer_than(a, b) == newer_than(tail_from(a, i as int), tail_from(b, i as int)),
        decreases top - i,
    {
        let c: u64 = if i < cur.len() {
            cur[i]
        } else {
            0
        };
        let l: u64 = if i < lat.len() {
            0 + lat[i]
        } else {
            0
        };
        proof {
            lemma_newer_than_step(a, b, i as int);
            if i < cur@.len() {
                assert(a[i as int] == cur@[i as int] as int);
            }
            if i < lat@.len() {
                assert(b[i as int] == lat@[i as int] as int);
            }
        }
        if l > c {
            return true;
        }
        if l < c {
            return false;
        }
        i = i + 1;
    }
    proof {
        assert(tail_from(a, top as int) =~= Seq::<int>::empty());
        assert(tail_from(b, top as int) =~= Seq::<int>::empty());
    }
    false
}

/// Unfolding `newer_than` one component at a time, over `tail_from`.
proof fn lemma_newer_than_step(a: Seq<int>, b: Seq<int>, i: int)
    requires
        0 <= i,
        i < a.len() || i < b.len(),
    ensures
        ({
            let c0 = if i < a.len() {
                a[i]
            } else {
                0
            };
            let l0 = if i < b.len() {
                b[i]
            } else {
                0
            };
            newer_than(tail_from(a, i), tail_from(b, i)) == if l0 > c0 {
                true
            } else if l0 < c0 {
                false
            } else {
                newer_than(tail_from(a, i + 1), tail_from(b, i + 1))
            }
        }),
{
    let ta = tail_from(a, i);
    let tb = tail_from(b, i);
    if i < a.len() {
        assert(ta[0] == a[i]);
        assert(ta.drop_first() =~= tail_from(a, i + 1));
    } else {
        assert(ta =~= Seq::<int>::empty());
        assert(tail_from(a, i + 1) =~= Seq::<int>::empty());
    }
    if i < b.len() {
        assert(tb[0] == b[i]);
        assert(tb.drop_first() =~= tail_from(b, i + 1));
    } else {
        assert(tb =~= Seq::<int>::empty());
        assert(tail_from(b, i + 1) =~= Seq::<int>::empty());
    }
}

proof fn lemma_strip_vs(s: Seq<char>, k: int)
    requires
        0 <= k <= s.len(),
        forall|j: int| 0 <= j < k ==> s[j] == 'v',
        k == s.len() || s[k] != 'v',
    ensures
        strip_vs(s) =~= s.skip(k),
    decreases k,
{
    if k == 0 {
        assert(s.skip(0) =~= s);
    } else {
        assert(s[0] == 'v');
        lemma_strip_vs(s.drop_first(), k - 1);
        assert(s.drop_first().skip(k - 1) =~= s.skip(k));
    }
}

/// The release asset name for a platform, if self-update supports it.
pub fn platform_asset_name(os: &str, arch: &str) -> (r: Option<&'static str>)
    ensures
        os@ == "linux"@ && arch@ == "x86_64"@ ==> (r matches Some(n) && n@
            == "g-type-linux-x86_64"@),
        os@ == "macos"@ && arch@ == "x86_64"@ ==> (r matches Some(n) && n@
            == "g-type-macos-x86_64"@),
        os@ == "macos"@ && arch@ == "aarch64"@ ==> (r matches Some(n) && n@
            == "g-type-macos-aarch64"@),
        os@ == "windows"@ && arch@ == "x86_64"@ ==> (r matches Some(n) && n@
            == "g-type-windows-x86_64.exe"@),
        !((os@ == "linux"@ && arch@ == "x86_64"@) || (os@ == "macos"@ && (arch@ == "x86_64"@
            || arch@ == "aarch64"@)) || (os@ == "windows"@ && arch@ == "x86_64"@)) ==> r is None,
{
    proof {
        reveal_strlit("linux");
        reveal_strlit("macos");
        reveal_strlit("windows");
        reveal_strlit("x86_64");
        reveal_strlit("aarch64");
        assert("linux"@.len() == 5);
        assert("macos"@.len() == 5);
        assert("windows"@.len() == 7);
        assert("x86_64"@.len() == 6);
        assert("aarch64"@.len() == 7);
        assert("linux"@[0] == 'l');
        assert("macos"@[0] == 'm');
        assert("windows"@[0] == 'w');
        assert("x86_64"@[0] == 'x');
        assert("aarch64"@[0] == 'a');
        assert("linux"@ != "macos"@);
        assert("linux"@ != "windows"@);
        assert("macos"@ != "windows"@);
        assert("x86_64"@ != "aarch64"@);
    }
    if str_eq(os, "linux") && str_eq(arch, "x86_64") {
        Some("g-type-linux-x86_64")
    } else if str_eq(os, "macos") && str_eq(arch, "x86_64") {
        Some("g-type-macos-x86_64")
    } else if str_eq(os, "macos") && str_eq(arch, "aarch64") {
        Some("g-type-macos-aarch64")
    } else if str_eq(os, "windows") && str_eq(arch, "x86_64") {
        Some("g-type-windows-x86_64.exe")
    } else {
        None
    }
}

} // verus!
