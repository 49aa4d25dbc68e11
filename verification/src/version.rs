//! Version extraction from runner and release names, and the sortable
//! key used to pick the latest version.
//!
//! Three name grammars are recognised, each by a leftmost match:
//! - runner directory names such as `GE-Proton9-1` (the word `proton`,
//!   case-insensitively, then the first following digit run, extended
//!   by `.`- or `-`-joined digit runs);
//! - release names such as `v2.3.1` or `dxvk-2.3.1` (two or three
//!   dot-joined digit runs, optionally after a `v`);
//! - `GE-Proton{major}-{minor}` for the numeric sort key.
//!
//! When no pattern matches, the raw name is kept, degrading gracefully.

use vstd::prelude::*;

use crate::chars::all_digits;
use crate::chars::chars_to_string;
use crate::chars::digits_val;
use crate::chars::is_digit;
use crate::chars::lower_seq;
use crate::chars::match_at;
use crate::chars::matches_at;
use crate::chars::slice_chars;
use crate::chars::str_to_chars;
use crate::chars::to_lower_chars;

verus! {

// ---------------------------------------------------------------------------
// Scanning specification
// ---------------------------------------------------------------------------

/// The first index at or after `i` that is not a digit (or the end).
pub open spec fn digit_run_end(s: Seq<char>, i: int) -> int
    decreases s.len() - i,
{
    if i < 0 || i >= s.len() || !is_digit(s[i]) {
        i
    } else {
        digit_run_end(s, i + 1)
    }
}

/// The first digit at or after `i`, if any.
pub open spec fn first_digit_from(s: Seq<char>, i: int) -> Option<int>
    decreases s.len() - i,
{
    if i < 0 || i >= s.len() {
        None
    } else if is_digit(s[i]) {
        Some(i)
    } else {
        first_digit_from(s, i + 1)
    }
}

/// The end of a version run starting at digit `i`: a digit run,
/// extended by as many `.`- or `-`-joined digit runs as follow.
pub open spec fn version_run_end(s: Seq<char>, i: int) -> int
    decreases s.len() - i,
{
    if i < 0 || i >= s.len() {
        i
    } else if !is_digit(s[i]) {
        i
    } else if i + 1 >= s.len() {
        i + 1
    } else if is_digit(s[i + 1]) {
        version_run_end(s, i + 1)
    } else if (s[i + 1] == '.' || s[i + 1] == '-') && i + 2 < s.len() && is_digit(s[i + 2]) {
        version_run_end(s, i + 2)
    } else {
        i + 1
    }
}

/// Whether the word `proton` occurs, case-insensitively, at `p`, with
/// some digit at or after its end.
pub open spec fn proton_at(s: Seq<char>, p: int) -> bool {
    matches_at(lower_seq(s), "proton"@, p) && first_digit_from(s, p + 6) is Some
}

/// The leftmost runner-name match at or after `i`.
pub open spec fn first_proton_from(s: Seq<char>, i: int) -> Option<int>
    decreases s.len() - i,
{
    if i < 0 || i + 6 > s.len() {
        None
    } else if proton_at(s, i) {
        Some(i)
    } else {
        first_proton_from(s, i + 1)
    }
}

/// The version token a runner directory name carries: the first digit
/// run after the leftmost `proton`, with its joined continuations; the
/// whole name when no such pattern occurs.
pub open spec fn proton_version_spec(s: Seq<char>) -> Seq<char> {
    match first_proton_from(s, 0) {
        Some(p) => {
            let d = first_digit_from(s, p + 6)->Some_0;
            s.subrange(d, version_run_end(s, d))
        },
        None => s,
    }
}

/// Whether a dotted number (`digits.digits`) starts at `c`.
pub open spec fn num_at(s: Seq<char>, c: int) -> bool {
    &&& 0 <= c < s.len()
    &&& is_digit(s[c])
    &&& {
        let a = digit_run_end(s, c);
        a < s.len() && s[a] == '.' && a + 1 < s.len() && is_digit(s[a + 1])
    }
}

/// Whether a release-name match starts at `q`: a dotted number,
/// optionally prefixed by `v`.
pub open spec fn dxvk_match_at(s: Seq<char>, q: int) -> bool {
    (0 <= q < s.len() && s[q] == 'v' && num_at(s, q + 1)) || num_at(s, q)
}

/// The leftmost release-name match at or after `i`.
pub open spec fn first_dxvk_from(s: Seq<char>, i: int) -> Option<int>
    decreases s.len() - i,
{
    if i < 0 || i >= s.len() {
        None
    } else if dxvk_match_at(s, i) {
        Some(i)
    } else {
        first_dxvk_from(s, i + 1)
    }
}

/// Where the captured dotted number starts, for a match at `q`.
pub open spec fn dxvk_capture_start(s: Seq<char>, q: int) -> int {
    if 0 <= q < s.len() && s[q] == 'v' && num_at(s, q + 1) {
        q + 1
    } else {
        q
    }
}

/// Where the captured dotted number ends: two digit runs joined by a
/// dot, and a third when one follows.
pub open spec fn dxvk_capture_end(s: Seq<char>, c: int) -> int {
    let a = digit_run_end(s, c);
    let b = digit_run_end(s, a + 1);
    if b < s.len() && s[b] == '.' && b + 1 < s.len() && is_digit(s[b + 1]) {
        digit_run_end(s, b + 1)
    } else {
        b
    }
}

/// The version token a release name carries: the leftmost dotted
/// number; the whole name when none occurs.
pub open spec fn dxvk_version_spec(s: Seq<char>) -> Seq<char> {
    match first_dxvk_from(s, 0) {
        Some(q) => {
            let c = dxvk_capture_start(s, q);
            s.subrange(c, dxvk_capture_end(s, c))
        },
        None => s,
    }
}

/// Whether `GE-Proton{digits}-{digits}` matches at `p`.
pub open spec fn ge_match_at(s: Seq<char>, p: int) -> bool {
    &&& matches_at(s, "GE-Proton"@, p)
    &&& p + 9 < s.len() && is_digit(s[p + 9])
    &&& {
        let a = digit_run_end(s, p + 9);
        a < s.len() && s[a] == '-' && a + 1 < s.len() && is_digit(s[a + 1])
    }
}

/// The leftmost `GE-Proton{major}-{minor}` match at or after `i`.
pub open spec fn first_ge_from(s: Seq<char>, i: int) -> Option<int>
    decreases s.len() - i,
{
    if i < 0 || i + 9 > s.len() {
        None
    } else if ge_match_at(s, i) {
        Some(i)
    } else {
        first_ge_from(s, i + 1)
    }
}

/// The saturation bound of the numeric fallback, chosen so that the
/// sort key (value times one hundred) still fits 64 bits.
pub open spec fn fallback_cap() -> int {
    184467440737095515
}

/// The numeric version parts of a name: `(major, minor)` from a
/// `GE-Proton{major}-{minor}` match (an oversized part degrades to
/// zero, as a failed integer parse would); otherwise the first digit
/// run and zero; otherwise zero twice.
pub open spec fn version_parts_spec(s: Seq<char>) -> (int, int) {
    match first_ge_from(s, 0) {
        Some(p) => {
            let a = digit_run_end(s, p + 9);
            let b = digit_run_end(s, a + 1);
            let major = digits_val(s.subrange(p + 9, a));
            let minor = digits_val(s.subrange(a + 1, b));
            (
                if major > 4294967295 {
                    0
                } else {
                    major
                },
                if minor > 4294967295 {
                    0
                } else {
                    minor
                },
            )
        },
        None => match first_digit_from(s, 0) {
            Some(d) => {
                let v = digits_val(s.subrange(d, digit_run_end(s, d)));
                (
                    if v > fallback_cap() {
                        fallback_cap()
                    } else {
                        v
                    },
                    0,
                )
            },
            None => (0, 0),
        },
    }
}

/// The sortable key of a version name: major times one hundred plus
/// minor, ordering names as `major + minor/100` would.
#[verifier::opaque]
pub open spec fn version_key_spec(s: Seq<char>) -> int {
    version_parts_spec(s).0 * 100 + version_parts_spec(s).1
}

// ---------------------------------------------------------------------------
// Executable scanners
// ---------------------------------------------------------------------------

/// The first index at or after `i` that is not a digit.
fn digit_run_end_exec(v: &Vec<char>, i: usize) -> (r: usize)
    requires
        i <= v@.len(),
    ensures
        r == digit_run_end(v@, i as int),
        i <= r <= v@.len(),
    decreases v@.len() - i,
{
    if i == v.len() || !('0' <= v[i] && v[i] <= '9') {
        i
    } else {
        digit_run_end_exec(v, i + 1)
    }
}

/// The first digit at or after `i`, if any.
fn first_digit_index(v: &Vec<char>, i: usize) -> (r: Option<usize>)
    requires
        i <= v@.len(),
    ensures
        match r {
            Some(d) => first_digit_from(v@, i as int) == Some(d as int) && i <= d < v@.len(),
            None => first_digit_from(v@, i as int) is None,
        },
    decreases v@.len() - i,
{
    if i == v.len() {
        None
    } else if '0' <= v[i] && v[i] <= '9' {
        Some(i)
    } else {
        first_digit_index(v, i + 1)
    }
}

/// The end of the version run starting at `i`.
fn version_run_end_exec(v: &Vec<char>, i: usize) -> (r: usize)
    requires
        i <= v@.len(),
    ensures
        r == version_run_end(v@, i as int),
        i <= r <= v@.len(),
    decreases v@.len() - i,
{
    if i == v.len() || !('0' <= v[i] && v[i] <= '9') {
        i
    } else if i + 1 == v.len() {
        i + 1
    } else if '0' <= v[i + 1] && v[i + 1] <= '9' {
        version_run_end_exec(v, i + 1)
    } else if (v[i + 1] == '.' || v[i + 1] == '-') && i + 2 < v.len() && ('0' <= v[i + 2] && v[i
        + 2] <= '9') {
        version_run_end_exec(v, i + 2)
    } else {
        i + 1
    }
}

/// The version token of a runner directory name, such as the digits
/// of `GE-Proton8-32`; the whole name when no pattern matches.
pub fn extract_proton_version(name: &str) -> (r: String)
    ensures
        r@ == proton_version_spec(name@),
{
    let v = str_to_chars(name);
    let lv = to_lower_chars(&v);
    let pl = str_to_chars("proton");
    proof {
        assert(pl@.len() == 6) by {
            reveal_strlit("proton");
        }
    }
    if v.len() < 6 {
        return chars_to_string(&v);
    }
    let limit = v.len() - 6;
    let mut p: usize = 0;
    let mut hit: Option<usize> = None;
    while p <= limit && hit.is_none()
        invariant
            p <= limit + 1,
            limit == v@.len() - 6,
            v@.len() >= 6,
            v@ == name@,
            lv@ == lower_seq(name@),
            lv@.len() == v@.len(),
            pl@ == "proton"@,
            pl@.len() == 6,
            match hit {
                Some(h) => first_proton_from(name@, 0) == Some(h as int) && h + 6 <= v@.len()
                    && proton_at(name@, h as int),
                None => first_proton_from(name@, 0) == first_proton_from(name@, p as int),
            },
        decreases limit + 1 - p + (if hit is None {
            1int
        } else {
            0int
        }),
    {
        let word = match_at(&lv, &pl, p);
        if word {
            let d = first_digit_index(&v, p + 6);
            match d {
                Some(_) => {
                    proof {
                        assert(proton_at(name@, p as int));
                    }
                    hit = Some(p);
                },
                None => {
                    proof {
                        assert(!proton_at(name@, p as int));
                    }
                    p += 1;
                },
            }
        } else {
            proof {
                assert(!proton_at(name@, p as int));
            }
            p += 1;
        }
    }
    match hit {
        Some(p) => {
            proof {
                assert(first_proton_from(name@, 0) == Some(p as int));
            }
            let d = first_digit_index(&v, p + 6).unwrap();
            let e = version_run_end_exec(&v, d);
            let cap = slice_chars(&v, d, e);
            chars_to_string(&cap)
        },
        None => {
            proof {
                assert(first_proton_from(name@, 0) is None);
            }
            chars_to_string(&v)
        },
    }
}

/// The version token of a release name, such as the digits of
/// `dxvk-2.3.1` or `v1.10`; the whole name when no pattern matches.
pub fn extract_dxvk_version(name: &str) -> (r: String)
    ensures
        r@ == dxvk_version_spec(name@),
{
    let v = str_to_chars(name);
    let mut q: usize = 0;
    let mut hit: Option<usize> = None;
    while q < v.len() && hit.is_none()
        invariant
            q <= v@.len(),
            v@ == name@,
            match hit {
                Some(h) => first_dxvk_from(name@, 0) == Some(h as int) && h < v@.len()
                    && dxvk_match_at(name@, h as int),
                None => first_dxvk_from(name@, 0) == first_dxvk_from(name@, q as int),
            },
        decreases v@.len() - q + (if hit is None {
            1int
        } else {
            0int
        }),
    {
        if dxvk_match_exec(&v, q) {
            hit = Some(q);
        } else {
            q += 1;
        }
    }
    match hit {
        Some(q) => {
            proof {
                assert(first_dxvk_from(name@, 0) == Some(q as int));
            }
            let n = v.len();
            let c = if v[q] == 'v' && num_at_exec(&v, q + 1) {
                q + 1
            } else {
                q
            };
            proof {
                assert(c as int == dxvk_capture_start(name@, q as int));
                assert(num_at(name@, c as int));
            }
            let a = digit_run_end_exec(&v, c);
            proof {
                assert(a < v@.len());
            }
            let b = digit_run_end_exec(&v, a + 1);
            let e = if b < v.len() && v[b] == '.' && b + 1 < v.len() && ('0' <= v[b + 1] && v[b
                + 1] <= '9') {
                digit_run_end_exec(&v, b + 1)
            } else {
                b
            };
            proof {
                assert(e as int == dxvk_capture_end(name@, c as int));
                assert(e <= v@.len());
                assert(c <= e) by {
                    assert(digit_run_end(name@, a + 1) >= a + 1);
                }
            }
            let cap = slice_chars(&v, c, e);
            chars_to_string(&cap)
        },
        None => {
            proof {
                assert(first_dxvk_from(name@, 0) is None);
            }
            chars_to_string(&v)
        },
    }
}

/// Whether a dotted number starts at `c`.
fn num_at_exec(v: &Vec<char>, c: usize) -> (r: bool)
    ensures
        r == num_at(v@, c as int),
{
    if c >= v.len() || !('0' <= v[c] && v[c] <= '9') {
        return false;
    }
    let a = digit_run_end_exec(v, c);
    a < v.len() && v[a] == '.' && a + 1 < v.len() && ('0' <= v[a + 1] && v[a + 1] <= '9')
}

/// Whether a release-name match starts at `q`.
fn dxvk_match_exec(v: &Vec<char>, q: usize) -> (r: bool)
    requires
        q < v@.len(),
    ensures
        r == dxvk_match_at(v@, q as int),
{
    let n = v.len();
    if v[q] == 'v' && num_at_exec(v, q + 1) {
        true
    } else {
        num_at_exec(v, q)
    }
}

/// Digits in the run starting at `i` are digits, and the run stops at
/// the first non-digit.
pub proof fn lemma_digit_run_props(s: Seq<char>, i: int)
    requires
        0 <= i <= s.len(),
    ensures
        i <= digit_run_end(s, i) <= s.len(),
        all_digits(s.subrange(i, digit_run_end(s, i))),
        digit_run_end(s, i) < s.len() ==> !is_digit(s[digit_run_end(s, i)]),
    decreases s.len() - i,
{
    let e = digit_run_end(s, i);
    if i < s.len() && is_digit(s[i]) {
        lemma_digit_run_props(s, i + 1);
        assert forall|k: int| 0 <= k < e - i implies is_digit(
            #[trigger] s.subrange(i, e)[k],
        ) by {
            if k > 0 {
                assert(s.subrange(i + 1, e)[k - 1] == s[i + k]);
            }
        }
    }
}

/// Whether `GE-Proton{digits}-{digits}` matches at `p`.
fn ge_match_exec(v: &Vec<char>, ge: &Vec<char>, p: usize) -> (r: bool)
    requires
        ge@ == "GE-Proton"@,
        ge@.len() == 9,
        p + 9 <= v@.len(),
    ensures
        r == ge_match_at(v@, p as int),
{
    let n = v.len();
    if !match_at(v, ge, p) {
        return false;
    }
    if p + 9 == v.len() || !('0' <= v[p + 9] && v[p + 9] <= '9') {
        return false;
    }
    let a = digit_run_end_exec(v, p + 9);
    a < v.len() && v[a] == '-' && a + 1 < v.len() && ('0' <= v[a + 1] && v[a + 1] <= '9')
}

/// The numeric `(major, minor)` version of a name: from its
/// `GE-Proton{major}-{minor}` part when one occurs, else from its
/// first digit run, else zero. An oversized major or minor degrades to
/// zero; an oversized fallback saturates.
pub fn extract_version_number(version: &str) -> (r: (u64, u64))
    ensures
        (r.0 as int, r.1 as int) == version_parts_spec(version@),
        r.0 <= 184467440737095515,
        r.1 <= 4294967295,
        r.0 > 4294967295 ==> r.1 == 0,
{
    let v = str_to_chars(version);
    let ge = str_to_chars("GE-Proton");
    proof {
        assert(ge@.len() == 9) by {
            reveal_strlit("GE-Proton");
        }
    }
    let mut hit: Option<usize> = None;
    if v.len() >= 9 {
        let limit = v.len() - 9;
        let mut p: usize = 0;
        while p <= limit && hit.is_none()
            invariant
                p <= limit + 1,
                limit == v@.len() - 9,
                v@.len() <= usize::MAX,
                v@.len() >= 9,
                v@ == version@,
                ge@ == "GE-Proton"@,
                ge@.len() == 9,
                match hit {
                    Some(h) => first_ge_from(version@, 0) == Some(h as int) && h + 9 <= v@.len()
                        && ge_match_at(version@, h as int),
                    None => first_ge_from(version@, 0) == first_ge_from(version@, p as int),
                },
            decreases limit + 1 - p + (if hit is None {
                1int
            } else {
                0int
            }),
        {
            if ge_match_exec(&v, &ge, p) {
                hit = Some(p);
            } else {
                p += 1;
            }
        }
    } else {
        proof {
            assert(first_ge_from(version@, 0) is None);
        }
    }
    match hit {
        Some(p) => {
            proof {
                assert(first_ge_from(version@, 0) == Some(p as int));
            }
            let a = digit_run_end_exec(&v, p + 9);
            proof {
                assert(a < v@.len());
                lemma_digit_run_props(v@, p + 9);
                lemma_digit_run_props(v@, a + 1);
            }
            let b = digit_run_end_exec(&v, a + 1);
            let major = match crate::chars::digits_value_capped(&v, p + 9, a, 4294967295) {
                Some(x) => x,
                None => 0,
            };
            let minor = match crate::chars::digits_value_capped(&v, a + 1, b, 4294967295) {
                Some(x) => x,
                None => 0,
            };
            (major, minor)
        },
        None => {
            proof {
                assert(first_ge_from(version@, 0) is None);
            }
            match first_digit_index(&v, 0) {
                Some(d) => {
                    let e = digit_run_end_exec(&v, d);
                    proof {
                        lemma_digit_run_props(v@, d as int);
                    }
                    let val = match crate::chars::digits_value_capped(
                        &v,
                        d,
                        e,
                        184467440737095515,
                    ) {
                        Some(x) => x,
                        None => 184467440737095515,
                    };
                    (val, 0)
                },
                None => {
                    proof {
                        assert(first_digit_from(version@, 0) is None);
                    }
                    (0, 0)
                },
            }
        },
    }
}

/// The sortable key of a version name, ordering names as
/// `major + minor/100` would.
pub fn version_sort_key(version: &str) -> (r: u64)
    ensures
        r as int == version_key_spec(version@),
{
    proof {
        reveal(version_key_spec);
    }
    let (major, minor) = extract_version_number(version);
    major * 100 + minor
}

// ---------------------------------------------------------------------------
// Round-trip laws
// ---------------------------------------------------------------------------

/// The run stops exactly at `e` when `[i, e)` is all digits and `e` is
/// the end or a non-digit.
pub proof fn lemma_digit_run_exact(s: Seq<char>, i: int, e: int)
    requires
        0 <= i <= e <= s.len(),
        forall|k: int| i <= k < e ==> is_digit(#[trigger] s[k]),
        e < s.len() ==> !is_digit(s[e]),
    ensures
        digit_run_end(s, i) == e,
    decreases e - i,
{
    if i < e {
        lemma_digit_run_exact(s, i + 1, e);
    }
}

/// Inside a digit block, the version run's end is the same wherever it
/// is entered.
proof fn lemma_vre_digits(s: Seq<char>, i: int, e: int)
    requires
        0 <= i < e <= s.len(),
        forall|k: int| i <= k < e ==> is_digit(#[trigger] s[k]),
    ensures
        version_run_end(s, i) == version_run_end(s, e - 1),
    decreases e - i,
{
    if i < e - 1 {
        lemma_vre_digits(s, i + 1, e);
    }
}

/// Version-extraction round trip, runner-name form: an installed
/// directory named `GE-Proton{M}-{N}` yields exactly `{M}-{N}`.
pub proof fn lemma_proton_version_round_trip(m: Seq<char>, n: Seq<char>)
    requires
        m.len() > 0,
        n.len() > 0,
        all_digits(m),
        all_digits(n),
    ensures
        proton_version_spec("GE-Proton"@ + m + "-"@ + n) == m + "-"@ + n,
{
    reveal_strlit("GE-Proton");
    reveal_strlit("proton");
    reveal_strlit("-");
    let s = "GE-Proton"@ + m + "-"@ + n;
    let ml = m.len() as int;
    let nl = n.len() as int;
    assert("GE-Proton"@.len() == 9);
    assert("-"@.len() == 1);
    assert(s.len() == 10 + ml + nl);
    assert forall|k: int| 0 <= k < 9 implies s[k] == "GE-Proton"@[k] by {}
    assert forall|k: int| 0 <= k < ml implies s[9 + k] == m[k] by {}
    assert(s[9 + ml] == '-');
    assert forall|k: int| 0 <= k < nl implies s[10 + ml + k] == n[k] by {}
    let ls = lower_seq(s);
    // the word occurs at index three and nowhere earlier
    assert(ls[0] == 'g' && ls[1] == 'e' && ls[2] == '-');
    assert(ls[3] == 'p' && ls[4] == 'r' && ls[5] == 'o' && ls[6] == 't' && ls[7] == 'o' && ls[8]
        == 'n');
    assert("proton"@[0] == 'p');
    assert(!matches_at(ls, "proton"@, 0));
    assert(!matches_at(ls, "proton"@, 1));
    assert(!matches_at(ls, "proton"@, 2));
    assert(matches_at(ls, "proton"@, 3));
    assert(is_digit(s[9]));
    assert(first_digit_from(s, 9) == Some(9int));
    assert(proton_at(s, 3));
    assert(first_proton_from(s, 0) == first_proton_from(s, 1));
    assert(first_proton_from(s, 1) == first_proton_from(s, 2));
    assert(first_proton_from(s, 2) == first_proton_from(s, 3));
    assert(first_proton_from(s, 3) == Some(3int));
    // the version run covers the digits, the separator, the digits
    assert(version_run_end(s, 9) == version_run_end(s, 9 + ml - 1)) by {
        if ml > 1 {
            lemma_vre_digits(s, 9, 9 + ml);
        }
    }
    assert(version_run_end(s, 9 + ml - 1) == version_run_end(s, 10 + ml)) by {
        assert(is_digit(s[9 + ml - 1]));
        assert(s[9 + ml] == '-');
        assert(is_digit(s[10 + ml]));
    }
    assert(version_run_end(s, 10 + ml) == version_run_end(s, 10 + ml + nl - 1)) by {
        if nl > 1 {
            lemma_vre_digits(s, 10 + ml, 10 + ml + nl);
        }
    }
    assert(version_run_end(s, 10 + ml + nl - 1) == s.len()) by {
        assert(is_digit(s[10 + ml + nl - 1]));
    }
    assert(s.subrange(9, s.len() as int) =~= m + "-"@ + n);
}

/// Version-extraction round trip, release-name form: an installed
/// directory named `v{X.Y.Z}` yields exactly `{X.Y.Z}`.
pub proof fn lemma_dxvk_version_round_trip(x: Seq<char>, y: Seq<char>, z: Seq<char>)
    requires
        x.len() > 0,
        y.len() > 0,
        z.len() > 0,
        all_digits(x),
        all_digits(y),
        all_digits(z),
    ensures
        dxvk_version_spec("v"@ + x + "."@ + y + "."@ + z) == x + "."@ + y + "."@ + z,
{
    reveal_strlit("v");
    reveal_strlit(".");
    let s = "v"@ + x + "."@ + y + "."@ + z;
    let xl = x.len() as int;
    let yl = y.len() as int;
    let zl = z.len() as int;
    assert("v"@.len() == 1);
    assert("."@.len() == 1);
    assert(s.len() == 3 + xl + yl + zl);
    assert(s[0] == 'v');
    assert forall|k: int| 0 <= k < xl implies s[1 + k] == x[k] by {}
    assert(s[1 + xl] == '.');
    assert forall|k: int| 0 <= k < yl implies s[2 + xl + k] == y[k] by {}
    assert(s[2 + xl + yl] == '.');
    assert forall|k: int| 0 <= k < zl implies s[3 + xl + yl + k] == z[k] by {}
    assert(digit_run_end(s, 1) == 1 + xl) by {
        lemma_digit_run_exact(s, 1, 1 + xl);
    }
    assert(num_at(s, 1));
    assert(dxvk_match_at(s, 0));
    assert(first_dxvk_from(s, 0) == Some(0int));
    assert(dxvk_capture_start(s, 0) == 1);
    assert(digit_run_end(s, 2 + xl) == 2 + xl + yl) by {
        lemma_digit_run_exact(s, 2 + xl, 2 + xl + yl);
    }
    assert(digit_run_end(s, 3 + xl + yl) == s.len()) by {
        lemma_digit_run_exact(s, 3 + xl + yl, s.len() as int);
    }
    assert(dxvk_capture_end(s, 1) == s.len());
    assert(s.subrange(1, s.len() as int) =~= x + "."@ + y + "."@ + z);
}

} // verus!
