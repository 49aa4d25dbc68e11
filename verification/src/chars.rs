//! Character-sequence utilities shared by the whole crate.
//!
//! Strings are modelled as `Seq<char>`; the executable side works on
//! `Vec<char>` so that indexing is cheap and contracts stay exact.

use vstd::prelude::*;

verus! {

// ---------------------------------------------------------------------------
// Spec-level predicates and functions
// ---------------------------------------------------------------------------

/// `needle` occurs in `hay` starting at index `i`.
pub open spec fn matches_at(hay: Seq<char>, needle: Seq<char>, i: int) -> bool {
    &&& 0 <= i
    &&& i + needle.len() <= hay.len()
    &&& forall|j: int| 0 <= j < needle.len() ==> hay[i + j] == needle[j]
}

/// `needle` occurs somewhere in `hay`.
pub open spec fn contains_seq(hay: Seq<char>, needle: Seq<char>) -> bool {
    exists|i: int| matches_at(hay, needle, i)
}

/// `hay` contains the single character `c`.
pub open spec fn contains_char(hay: Seq<char>, c: char) -> bool {
    exists|i: int| 0 <= i < hay.len() && hay[i] == c
}

pub open spec fn starts_with(hay: Seq<char>, needle: Seq<char>) -> bool {
    matches_at(hay, needle, 0)
}

pub open spec fn ends_with(hay: Seq<char>, needle: Seq<char>) -> bool {
    needle.len() <= hay.len() && matches_at(hay, needle, hay.len() - needle.len())
}

/// ASCII lower-casing of one character; other characters are unchanged.
pub open spec fn lower_char(c: char) -> char {
    if 'A' <= c && c <= 'Z' {
        (((c as u32) + 32) as u8) as char
    } else {
        c
    }
}

/// ASCII lower-casing of a whole sequence.
pub open spec fn lower_seq(s: Seq<char>) -> Seq<char> {
    s.map_values(|c: char| lower_char(c))
}

pub open spec fn is_digit(c: char) -> bool {
    '0' <= c && c <= '9'
}

pub open spec fn digit_val(c: char) -> int {
    (c as u32) - 48
}

pub open spec fn all_digits(s: Seq<char>) -> bool {
    forall|i: int| 0 <= i < s.len() ==> is_digit(s[i])
}

/// Value of a non-empty digit sequence read in base 10.
pub open spec fn digits_val(s: Seq<char>) -> int
    decreases s.len(),
{
    if s.len() == 0 {
        0
    } else {
        digits_val(s.drop_last()) * 10 + digit_val(s.last())
    }
}

/// Decimal representation of a natural number, most significant digit first.
pub open spec fn dec_str(n: nat) -> Seq<char>
    decreases n,
{
    if n < 10 {
        seq![(((n + 48) as u8) as char)]
    } else {
        dec_str(n / 10).push((((n % 10 + 48) as u8) as char))
    }
}

/// ASCII whitespace, as the trimming in this crate understands it.
pub open spec fn is_space(c: char) -> bool {
    c == ' ' || c == '\t' || c == '\n' || c == '\r'
}

/// `s` with leading whitespace removed.
pub open spec fn trim_front(s: Seq<char>) -> Seq<char>
    decreases s.len(),
{
    if s.len() > 0 && is_space(s[0]) {
        trim_front(s.drop_first())
    } else {
        s
    }
}

/// `s` with trailing whitespace removed.
pub open spec fn trim_back(s: Seq<char>) -> Seq<char>
    decreases s.len(),
{
    if s.len() > 0 && is_space(s.last()) {
        trim_back(s.drop_last())
    } else {
        s
    }
}

/// `s` with leading and trailing whitespace removed.
pub open spec fn trim_seq(s: Seq<char>) -> Seq<char> {
    trim_back(trim_front(s))
}

/// Left-to-right, non-overlapping replacement of `from` by `to`,
/// as `str::replace` performs it. An empty `from` leaves `s` unchanged.
pub open spec fn replace_seq(s: Seq<char>, from: Seq<char>, to: Seq<char>) -> Seq<char>
    decreases s.len(),
{
    if from.len() == 0 || s.len() < from.len() {
        s
    } else if matches_at(s, from, 0) {
        to + replace_seq(s.subrange(from.len() as int, s.len() as int), from, to)
    } else {
        seq![s[0]] + replace_seq(s.drop_first(), from, to)
    }
}

// ---------------------------------------------------------------------------
// Containment lemmas
// ---------------------------------------------------------------------------

/// What the left part holds, the concatenation holds.
pub proof fn lemma_contains_left(a: Seq<char>, b: Seq<char>, x: Seq<char>)
    requires
        contains_seq(a, x),
    ensures
        contains_seq(a + b, x),
{
    let i = choose|i: int| matches_at(a, x, i);
    assert(matches_at(a + b, x, i)) by {
        assert forall|j: int| 0 <= j < x.len() implies (a + b)[i + j] == x[j] by {
            assert(a[i + j] == x[j]);
        }
    }
}

/// What the right part holds, the concatenation holds.
pub proof fn lemma_contains_right(a: Seq<char>, b: Seq<char>, x: Seq<char>)
    requires
        contains_seq(b, x),
    ensures
        contains_seq(a + b, x),
{
    let i = choose|i: int| matches_at(b, x, i);
    assert(matches_at(a + b, x, a.len() + i)) by {
        assert forall|j: int| 0 <= j < x.len() implies (a + b)[a.len() + i + j] == x[j] by {
            assert(b[i + j] == x[j]);
        }
    }
}

/// Containment passes through an inner sequence.
pub proof fn lemma_contains_trans(a: Seq<char>, m: Seq<char>, x: Seq<char>)
    requires
        contains_seq(a, m),
        contains_seq(m, x),
    ensures
        contains_seq(a, x),
{
    let i = choose|i: int| matches_at(a, m, i);
    let k = choose|k: int| matches_at(m, x, k);
    assert(matches_at(a, x, i + k)) by {
        assert forall|j: int| 0 <= j < x.len() implies a[i + k + j] == x[j] by {
            assert(m[k + j] == x[j]);
            assert(a[i + (k + j)] == m[k + j]);
        }
    }
}

// ---------------------------------------------------------------------------
// Digit-sequence lemmas
// ---------------------------------------------------------------------------

pub proof fn lemma_digits_val_nonneg(s: Seq<char>)
    requires
        all_digits(s),
    ensures
        digits_val(s) >= 0,
    decreases s.len(),
{
    if s.len() > 0 {
        assert(all_digits(s.drop_last()));
        lemma_digits_val_nonneg(s.drop_last());
    }
}

/// A digit sequence is worth at least any of its prefixes.
pub proof fn lemma_digits_prefix_le(s: Seq<char>, k: int)
    requires
        all_digits(s),
        0 <= k <= s.len(),
    ensures
        digits_val(s.subrange(0, k)) <= digits_val(s),
    decreases s.len() - k,
{
    if k == s.len() {
        assert(s.subrange(0, k) =~= s);
    } else {
        let p = s.subrange(0, k);
        let q = s.subrange(0, k + 1);
        assert(q.drop_last() =~= p);
        assert(all_digits(p));
        assert(all_digits(q));
        lemma_digits_val_nonneg(p);
        assert(digits_val(q) == digits_val(p) * 10 + digit_val(q.last()));
        assert(digits_val(p) <= digits_val(p) * 10) by (nonlinear_arith)
            requires
                digits_val(p) >= 0,
        ;
        lemma_digits_prefix_le(s, k + 1);
    }
}

// ---------------------------------------------------------------------------
// Executable functions
// ---------------------------------------------------------------------------

/// The value of the digit run `v[start..end]`, unless it exceeds `cap`.
pub fn digits_value_capped(v: &Vec<char>, start: usize, end: usize, cap: u64) -> (r: Option<u64>)
    requires
        start <= end <= v@.len(),
        all_digits(v@.subrange(start as int, end as int)),
        cap <= 1844674407370955160,
    ensures
        match r {
            Some(x) => x == digits_val(v@.subrange(start as int, end as int)) && x <= cap,
            None => digits_val(v@.subrange(start as int, end as int)) > cap,
        },
{
    let ghost s = v@.subrange(start as int, end as int);
    let mut acc: u64 = 0;
    let mut i: usize = start;
    while i < end
        invariant
            start <= i <= end <= v@.len(),
            s == v@.subrange(start as int, end as int),
            all_digits(s),
            cap <= 1844674407370955160,
            acc <= cap,
            acc == digits_val(v@.subrange(start as int, i as int)),
        decreases end - i,
    {
        let c = v[i];
        proof {
            assert(s[i - start] == v@[i as int]);
            assert(is_digit(c));
        }
        let d: u64 = (c as u32) as u64 - 48;
        let next: u64 = acc * 10 + d;
        proof {
            let p = v@.subrange(start as int, i as int);
            let q = v@.subrange(start as int, i + 1);
            assert(q.drop_last() =~= p);
            assert(q.last() == v@[i as int]);
            assert(digits_val(q) == digits_val(p) * 10 + digit_val(v@[i as int]));
        }
        if next > cap {
            proof {
                let q = v@.subrange(start as int, i + 1);
                assert(q =~= s.subrange(0, i + 1 - start));
                lemma_digits_prefix_le(s, i + 1 - start);
            }
            return None;
        }
        acc = next;
        i += 1;
    }
    proof {
        assert(v@.subrange(start as int, end as int) =~= s);
    }
    Some(acc)
}

/// Whether `v[start..end]` is all digits.
pub fn all_digits_range(v: &Vec<char>, start: usize, end: usize) -> (r: bool)
    requires
        start <= end <= v@.len(),
    ensures
        r == all_digits(v@.subrange(start as int, end as int)),
{
    let ghost s = v@.subrange(start as int, end as int);
    let mut i: usize = start;
    while i < end
        invariant
            start <= i <= end <= v@.len(),
            s == v@.subrange(start as int, end as int),
            forall|k: int| 0 <= k < i - start ==> is_digit(s[k]),
        decreases end - i,
    {
        let c = v[i];
        proof {
            assert(s[i - start] == v@[i as int]);
        }
        if !('0' <= c && c <= '9') {
            proof {
                assert(!is_digit(s[i - start]));
            }
            return false;
        }
        i += 1;
    }
    true
}

/// The characters of `s`, in order.
pub fn str_to_chars(s: &str) -> (v: Vec<char>)
    ensures
        v@ == s@,
{
    let n = s.unicode_len();
    let mut v: Vec<char> = Vec::new();
    let mut i: usize = 0;
    while i < n
        invariant
            i <= n,
            n == s@.len(),
            v@ == s@.subrange(0, i as int),
        decreases n - i,
    {
        v.push(s.get_char(i));
        i += 1;
        proof {
            assert(v@ =~= s@.subrange(0, i as int));
        }
    }
    proof {
        assert(v@ =~= s@);
    }
    v
}

/// Builds a `String` from a character vector.
///
/// Relies on `FromIterator for String`: collecting characters yields the
/// string made of exactly those characters, in order.
#[verifier::external_body]
pub fn chars_to_string(v: &Vec<char>) -> (s: String)
    ensures
        s@ == v@,
{
    v.iter().collect()
}

/// The characters `v[a..b]`, as a new vector.
pub fn slice_chars(v: &Vec<char>, a: usize, b: usize) -> (r: Vec<char>)
    requires
        a <= b <= v@.len(),
    ensures
        r@ == v@.subrange(a as int, b as int),
{
    let mut r: Vec<char> = Vec::new();
    let mut i: usize = a;
    while i < b
        invariant
            a <= i <= b <= v@.len(),
            r@ == v@.subrange(a as int, i as int),
        decreases b - i,
    {
        r.push(v[i]);
        i += 1;
        proof {
            assert(r@ =~= v@.subrange(a as int, i as int));
        }
    }
    r
}

/// Whether `needle` occurs in `hay` at position `i`.
pub fn match_at(hay: &Vec<char>, needle: &Vec<char>, i: usize) -> (r: bool)
    requires
        i + needle@.len() <= hay@.len(),
    ensures
        r == matches_at(hay@, needle@, i as int),
{
    let hn = hay.len();
    let mut j: usize = 0;
    while j < needle.len()
        invariant
            j <= needle@.len(),
            i + needle@.len() <= hay@.len(),
            hn == hay@.len(),
            forall|k: int| 0 <= k < j ==> hay@[i + k] == needle@[k],
        decreases needle@.len() - j,
    {
        if hay[i + j] != needle[j] {
            return false;
        }
        j += 1;
    }
    true
}

/// Whether `needle` occurs anywhere in `hay`.
pub fn contains_chars(hay: &Vec<char>, needle: &Vec<char>) -> (r: bool)
    ensures
        r == contains_seq(hay@, needle@),
{
    if needle.len() == 0 {
        proof {
            assert(matches_at(hay@, needle@, 0));
        }
        return true;
    }
    if needle.len() > hay.len() {
        return false;
    }
    let n_pos = hay.len() - needle.len() + 1;
    let mut i: usize = 0;
    while i < n_pos
        invariant
            needle@.len() >= 1,
            n_pos == hay@.len() - needle@.len() + 1,
            i <= n_pos,
            forall|k: int| 0 <= k < i ==> !matches_at(hay@, needle@, k),
        decreases n_pos - i,
    {
        if match_at(hay, needle, i) {
            return true;
        }
        i += 1;
    }
    false
}

/// Whether character `c` occurs in `hay`.
pub fn contains_one(hay: &Vec<char>, c: char) -> (r: bool)
    ensures
        r == contains_char(hay@, c),
{
    let mut i: usize = 0;
    while i < hay.len()
        invariant
            i <= hay@.len(),
            forall|k: int| 0 <= k < i ==> hay@[k] != c,
        decreases hay@.len() - i,
    {
        if hay[i] == c {
            return true;
        }
        i += 1;
    }
    false
}

/// Whether two character vectors hold the same characters.
pub fn chars_eq(a: &Vec<char>, b: &Vec<char>) -> (r: bool)
    ensures
        r == (a@ == b@),
{
    if a.len() != b.len() {
        return false;
    }
    let r = match_at(a, b, 0);
    proof {
        if r {
            assert(a@ =~= b@);
        }
    }
    r
}

/// Whether `hay` starts with `needle`.
pub fn starts_with_chars(hay: &Vec<char>, needle: &Vec<char>) -> (r: bool)
    ensures
        r == starts_with(hay@, needle@),
{
    if needle.len() > hay.len() {
        return false;
    }
    match_at(hay, needle, 0)
}

/// Whether `hay` ends with `needle`.
pub fn ends_with_chars(hay: &Vec<char>, needle: &Vec<char>) -> (r: bool)
    ensures
        r == ends_with(hay@, needle@),
{
    if needle.len() > hay.len() {
        return false;
    }
    match_at(hay, needle, hay.len() - needle.len())
}

/// ASCII lower-casing of a character vector.
pub fn to_lower_chars(v: &Vec<char>) -> (r: Vec<char>)
    ensures
        r@ == lower_seq(v@),
{
    let mut r: Vec<char> = Vec::new();
    let mut i: usize = 0;
    while i < v.len()
        invariant
            i <= v@.len(),
            r@.len() == i,
            forall|k: int| 0 <= k < i ==> r@[k] == lower_char(v@[k]),
        decreases v@.len() - i,
    {
        let c = v[i];
        if 'A' <= c && c <= 'Z' {
            let u: u32 = c as u32;
            r.push(((u + 32) as u8) as char);
        } else {
            r.push(c);
        }
        i += 1;
    }
    proof {
        assert(r@ =~= lower_seq(v@));
    }
    r
}

/// Decimal digits of `n`, most significant first.
pub fn u64_to_chars(n: u64) -> (v: Vec<char>)
    ensures
        v@ == dec_str(n as nat),
    decreases n,
{
    if n < 10 {
        let mut v: Vec<char> = Vec::new();
        v.push((((n as u8) + 48)) as char);
        proof {
            assert(v@ =~= dec_str(n as nat));
        }
        v
    } else {
        let mut v = u64_to_chars(n / 10);
        v.push((((n % 10) as u8 + 48)) as char);
        proof {
            assert(v@ =~= dec_str(n as nat));
        }
        v
    }
}

/// Decimal representation of `n` as a `String`.
pub fn u64_to_string(n: u64) -> (s: String)
    ensures
        s@ == dec_str(n as nat),
{
    let v = u64_to_chars(n);
    chars_to_string(&v)
}

/// `s` with leading and trailing ASCII whitespace removed.
pub fn trim_chars(v: &Vec<char>) -> (r: Vec<char>)
    ensures
        r@ == trim_seq(v@),
{
    proof {
        assert(v@.subrange(0, v@.len() as int) =~= v@);
    }
    let mut start: usize = 0;
    while start < v.len() && is_space_exec(v[start])
        invariant
            start <= v@.len(),
            trim_front(v@) == trim_front(v@.subrange(start as int, v@.len() as int)),
            forall|k: int| 0 <= k < start ==> is_space(v@[k]),
        decreases v@.len() - start,
    {
        proof {
            let rest = v@.subrange(start as int, v@.len() as int);
            assert(rest.drop_first() =~= v@.subrange(start + 1, v@.len() as int));
        }
        start += 1;
    }
    proof {
        let rest = v@.subrange(start as int, v@.len() as int);
        assert(trim_front(rest) == rest);
    }
    let mut end: usize = v.len();
    while end > start && is_space_exec(v[end - 1])
        invariant
            start <= end <= v@.len(),
            trim_front(v@) == v@.subrange(start as int, v@.len() as int),
            trim_seq(v@) == trim_back(v@.subrange(start as int, end as int)),
        decreases end,
    {
        proof {
            let cur = v@.subrange(start as int, end as int);
            assert(cur.drop_last() =~= v@.subrange(start as int, end - 1));
        }
        end -= 1;
    }
    proof {
        let cur = v@.subrange(start as int, end as int);
        assert(trim_back(cur) == cur);
    }
    let mut r: Vec<char> = Vec::new();
    let mut i: usize = start;
    while i < end
        invariant
            start <= i <= end <= v@.len(),
            r@ == v@.subrange(start as int, i as int),
        decreases end - i,
    {
        r.push(v[i]);
        i += 1;
        proof {
            assert(r@ =~= v@.subrange(start as int, i as int));
        }
    }
    r
}

/// Whether `c` is ASCII whitespace.
pub fn is_space_exec(c: char) -> (r: bool)
    ensures
        r == is_space(c),
{
    c == ' ' || c == '\t' || c == '\n' || c == '\r'
}

/// Left-to-right, non-overlapping replacement of `from` by `to`.
#[verifier::rlimit(100)]
#[verifier::spinoff_prover]
pub fn replace_chars(s: &Vec<char>, from: &Vec<char>, to: &Vec<char>) -> (r: Vec<char>)
    ensures
        r@ == replace_seq(s@, from@, to@),
{
    if from.len() == 0 {
        let mut r: Vec<char> = Vec::new();
        let mut i: usize = 0;
        while i < s.len()
            invariant
                i <= s@.len(),
                r@ == s@.subrange(0, i as int),
            decreases s@.len() - i,
        {
            r.push(s[i]);
            i += 1;
            proof {
                assert(r@ =~= s@.subrange(0, i as int));
            }
        }
        proof {
            assert(r@ =~= s@);
        }
        return r;
    }
    proof {
        assert(s@.subrange(0, s@.len() as int) =~= s@);
        assert(Seq::<char>::empty() + replace_seq(s@, from@, to@) =~= replace_seq(
            s@,
            from@,
            to@,
        ));
    }
    let mut r: Vec<char> = Vec::new();
    let mut i: usize = 0;
    while i < s.len()
        invariant
            from@.len() > 0,
            i <= s@.len(),
            replace_seq(s@, from@, to@) == r@ + replace_seq(
                s@.subrange(i as int, s@.len() as int),
                from@,
                to@,
            ),
        decreases s@.len() - i,
    {
        let ghost rest = s@.subrange(i as int, s@.len() as int);
        let ghost r_before = r@;
        if from.len() <= s.len() - i && match_at(s, from, i) {
            proof {
                assert(matches_at(rest, from@, 0)) by {
                    assert forall|j: int| 0 <= j < from@.len() implies rest[j] == from@[j] by {
                        assert(rest[j] == s@[i + j]);
                    }
                }
                assert(rest.subrange(from@.len() as int, rest.len() as int) =~= s@.subrange(
                    i + from@.len(),
                    s@.len() as int,
                ));
            }
            let mut j: usize = 0;
            while j < to.len()
                invariant
                    j <= to@.len(),
                    r@ == r_before + to@.subrange(0, j as int),
                decreases to@.len() - j,
            {
                r.push(to[j]);
                j += 1;
                proof {
                    assert(r@ =~= r_before + to@.subrange(0, j as int));
                }
            }
            i += from.len();
            proof {
                assert(to@.subrange(0, to@.len() as int) =~= to@);
                assert(replace_seq(rest, from@, to@) == to@ + replace_seq(
                    s@.subrange(i as int, s@.len() as int),
                    from@,
                    to@,
                ));
                assert(r_before + to@ + replace_seq(
                    s@.subrange(i as int, s@.len() as int),
                    from@,
                    to@,
                ) =~= r_before + (to@ + replace_seq(
                    s@.subrange(i as int, s@.len() as int),
                    from@,
                    to@,
                )));
            }
        } else {
            proof {
                if rest.len() >= from@.len() {
                    assert(!matches_at(rest, from@, 0)) by {
                        if matches_at(rest, from@, 0) {
                            assert forall|j: int| 0 <= j < from@.len() implies s@[i + j]
                                == from@[j] by {
                                assert(rest[j] == s@[i + j]);
                            }
                            assert(matches_at(s@, from@, i as int));
                        }
                    }
                }
                assert(rest.drop_first() =~= s@.subrange(i + 1, s@.len() as int));
            }
            r.push(s[i]);
            i += 1;
            proof {
                assert(replace_seq(rest, from@, to@) == seq![rest[0]] + replace_seq(
                    s@.subrange(i as int, s@.len() as int),
                    from@,
                    to@,
                ));
                assert(r@ =~= r_before + seq![rest[0]]);
                assert(r_before + seq![rest[0]] + replace_seq(
                    s@.subrange(i as int, s@.len() as int),
                    from@,
                    to@,
                ) =~= r_before + (seq![rest[0]] + replace_seq(
                    s@.subrange(i as int, s@.len() as int),
                    from@,
                    to@,
                )));
            }
        }
    }
    proof {
        let empty_rest = s@.subrange(s@.len() as int, s@.len() as int);
        assert(replace_seq(empty_rest, from@, to@) == empty_rest);
        assert(r@ + empty_rest =~= r@);
    }
    r
}

} // verus!
