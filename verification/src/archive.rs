//! Secure archive extraction: entry-path validation against traversal
//! attacks, and the running bounds on entry count and cumulative
//! uncompressed size.
//!
//! Entry paths are handled as strings with `/` separators. A path is
//! normalized component by component — parent references are refused,
//! current-directory and empty components dropped — and the normalized
//! string is then screened once more for traversal and separator
//! confusion before it is joined to the destination. The thin I/O
//! shell performs the final canonicalized-prefix check on disk and
//! materializes only what `entry_action` allows.

use vstd::prelude::*;

use crate::chars::chars_eq;
use crate::chars::chars_to_string;
use crate::chars::contains_char;
use crate::chars::contains_chars;
use crate::chars::contains_one;
use crate::chars::contains_seq;
use crate::chars::matches_at;
use crate::chars::starts_with;
use crate::chars::str_to_chars;

verus! {

/// Why extraction was refused.
#[derive(Debug, Clone, Copy, PartialEq, Eq, Structural)]
pub enum ArchiveError {
    /// An entry path holds a parent-directory component.
    PathTraversal,
    /// An entry path is absolute.
    AbsolutePath,
    /// A normalized entry path still holds a traversal or
    /// separator-confusion pattern, or a null byte.
    SuspiciousPath,
    /// The archive holds more entries than the configured maximum.
    TooManyFiles,
    /// The declared uncompressed sizes exceed the configured maximum.
    ArchiveTooLarge,
}

impl ArchiveError {
    /// A human-readable description of the error.
    pub fn message(&self) -> &'static str {
        match self {
            ArchiveError::PathTraversal => "Path traversal attempt detected",
            ArchiveError::AbsolutePath => "Absolute path not allowed in archive",
            ArchiveError::SuspiciousPath => "Suspicious path pattern detected",
            ArchiveError::TooManyFiles => "Archive contains too many files",
            ArchiveError::ArchiveTooLarge => "Archive total size exceeds limit",
        }
    }
}

// ---------------------------------------------------------------------------
// Path specification
// ---------------------------------------------------------------------------

/// Splits on `/`, keeping empty components.
pub open spec fn seg_scan(s: Seq<char>, cur: Seq<char>, acc: Seq<Seq<char>>) -> Seq<Seq<char>>
    decreases s.len(),
{
    if s.len() == 0 {
        acc.push(cur)
    } else if s[0] == '/' {
        seg_scan(s.drop_first(), Seq::empty(), acc.push(cur))
    } else {
        seg_scan(s.drop_first(), cur.push(s[0]), acc)
    }
}

/// The `/`-separated components of a path, empty ones included.
pub open spec fn segments(s: Seq<char>) -> Seq<Seq<char>> {
    seg_scan(s, Seq::empty(), Seq::empty())
}

/// Whether a component survives normalization: empty and
/// current-directory components are dropped.
pub open spec fn keep_seg(seg: Seq<char>) -> bool {
    seg.len() > 0 && seg != "."@
}

/// The components that survive normalization, in order.
pub open spec fn kept_segs(segs: Seq<Seq<char>>) -> Seq<Seq<char>>
    decreases segs.len(),
{
    if segs.len() == 0 {
        Seq::empty()
    } else {
        (if keep_seg(segs[0]) {
            seq![segs[0]]
        } else {
            Seq::empty()
        }) + kept_segs(segs.drop_first())
    }
}

/// The components from `i` on, joined with `/`.
pub open spec fn join_from(segs: Seq<Seq<char>>, i: int) -> Seq<char>
    decreases segs.len() - i,
{
    if i < 0 || i >= segs.len() {
        Seq::empty()
    } else if i == segs.len() - 1 {
        segs[i]
    } else {
        segs[i] + "/"@ + join_from(segs, i + 1)
    }
}

/// The normalized, destination-relative form of an entry path.
pub open spec fn normalized_path(s: Seq<char>) -> Seq<char> {
    join_from(kept_segs(segments(s)), 0)
}

/// Whether a component is a parent-directory reference.
pub open spec fn any_parent_seg(segs: Seq<Seq<char>>) -> bool {
    exists|k: int| 0 <= k < segs.len() && segs[k] == ".."@
}

/// The residual screen on the normalized string: traversal substrings,
/// separator confusion, null bytes.
pub open spec fn suspicious_path(p: Seq<char>) -> bool {
    ||| contains_seq(p, ".."@)
    ||| starts_with(p, "/"@)
    ||| starts_with(p, "\\"@)
    ||| contains_char(p, '\u{0}')
    ||| contains_seq(p, "\\"@)
    ||| contains_seq(p, ".\\"@)
    ||| contains_seq(p, "./"@)
    ||| contains_seq(p, ":\\"@)
}

/// The joined destination path: the destination itself for an empty
/// relative path, else destination, separator, relative path.
pub open spec fn joined_path(dest: Seq<char>, rel: Seq<char>) -> Seq<char> {
    if rel.len() == 0 {
        dest
    } else {
        dest + "/"@ + rel
    }
}

/// The whole decision on one entry path: reject absolute paths, then
/// parent-directory components, then anything the residual screen
/// catches; otherwise the safe path under the destination.
pub open spec fn validate_path_spec(entry: Seq<char>, dest: Seq<char>) -> Result<
    Seq<char>,
    ArchiveError,
> {
    if entry.len() > 0 && entry[0] == '/' {
        Err(ArchiveError::AbsolutePath)
    } else if any_parent_seg(segments(entry)) {
        Err(ArchiveError::PathTraversal)
    } else if suspicious_path(normalized_path(entry)) {
        Err(ArchiveError::SuspiciousPath)
    } else {
        Ok(joined_path(dest, normalized_path(entry)))
    }
}

// ---------------------------------------------------------------------------
// Executable path validation
// ---------------------------------------------------------------------------

/// The `/`-separated components of a path.
fn split_segments(v: &Vec<char>) -> (r: Vec<Vec<char>>)
    ensures
        r.deep_view() == segments(v@),
{
    let mut acc: Vec<Vec<char>> = Vec::new();
    let mut cur: Vec<char> = Vec::new();
    let mut i: usize = 0;
    proof {
        assert(v@.subrange(0, v@.len() as int) =~= v@);
        assert(acc.deep_view() =~~= Seq::<Seq<char>>::empty());
    }
    while i < v.len()
        invariant
            i <= v@.len(),
            segments(v@) == seg_scan(
                v@.subrange(i as int, v@.len() as int),
                cur@,
                acc.deep_view(),
            ),
        decreases v@.len() - i,
    {
        let ghost rest = v@.subrange(i as int, v@.len() as int);
        let ghost rest2 = v@.subrange(i + 1, v@.len() as int);
        let ghost old_acc = acc.deep_view();
        let ghost old_cur = cur@;
        proof {
            assert(rest[0] == v@[i as int]);
            assert(rest.drop_first() =~= rest2);
        }
        let c = v[i];
        if c == '/' {
            let done = cur;
            cur = Vec::new();
            acc.push(done);
            proof {
                assert(acc.deep_view() =~~= old_acc.push(old_cur));
                assert(seg_scan(rest, old_cur, old_acc) == seg_scan(
                    rest2,
                    Seq::empty(),
                    old_acc.push(old_cur),
                ));
                assert(cur@ =~= Seq::<char>::empty());
            }
        } else {
            cur.push(c);
            proof {
                assert(seg_scan(rest, old_cur, old_acc) == seg_scan(
                    rest2,
                    old_cur.push(c),
                    old_acc,
                ));
            }
        }
        i += 1;
    }
    let ghost old_acc = acc.deep_view();
    let ghost old_cur = cur@;
    acc.push(cur);
    proof {
        assert(acc.deep_view() =~~= old_acc.push(old_cur));
    }
    acc
}

/// Validates an archive entry path against the destination, returning
/// the safe path to materialize it at.
pub fn validate_archive_path(entry_path: &str, destination: &str) -> (r: Result<
    String,
    ArchiveError,
>)
    ensures
        match r {
            Ok(p) => validate_path_spec(entry_path@, destination@) == Ok::<Seq<char>, ArchiveError>(
                p@,
            ),
            Err(e) => validate_path_spec(entry_path@, destination@) == Err::<
                Seq<char>,
                ArchiveError,
            >(e),
        },
{
    let v = str_to_chars(entry_path);
    if v.len() > 0 && v[0] == '/' {
        return Err(ArchiveError::AbsolutePath);
    }
    let segs = split_segments(&v);
    let parent = str_to_chars("..");
    let dot = str_to_chars(".");
    let ghost segs_dv = segs.deep_view();
    let mut k: usize = 0;
    let mut kept: Vec<Vec<char>> = Vec::new();
    proof {
        assert(segs_dv.subrange(0, 0) =~= Seq::<Seq<char>>::empty());
        assert(kept.deep_view() =~~= kept_segs(segs_dv.subrange(0, 0)));
    }
    while k < segs.len()
        invariant
            k <= segs@.len(),
            segs_dv == segs.deep_view(),
            segs_dv == segments(entry_path@),
            !(entry_path@.len() > 0 && entry_path@[0] == '/'),
            parent@ == ".."@,
            dot@ == "."@,
            kept.deep_view() == kept_segs(segs_dv.subrange(0, k as int)),
            forall|m: int| 0 <= m < k ==> segs_dv[m] != ".."@,
        decreases segs@.len() - k,
    {
        let ghost prefix = segs_dv.subrange(0, k as int);
        proof {
            assert(segs_dv[k as int] =~= segs@[k as int]@);
            assert(segs_dv.subrange(0, k + 1) =~= prefix.push(segs_dv[k as int]));
            lemma_kept_push(prefix, segs_dv[k as int]);
        }
        if chars_eq(&segs[k], &parent) {
            proof {
                assert(segs_dv[k as int] == ".."@);
                assert(any_parent_seg(segments(entry_path@)));
            }
            return Err(ArchiveError::PathTraversal);
        }
        if segs[k].len() > 0 && !chars_eq(&segs[k], &dot) {
            proof {
                assert(keep_seg(segs_dv[k as int]));
            }
            let ghost pre = kept.deep_view();
            let seg = segs[k].clone();
            kept.push(seg);
            proof {
                assert(kept.deep_view() =~~= pre.push(segs_dv[k as int]));
                assert(pre.push(segs_dv[k as int]) =~~= pre + seq![segs_dv[k as int]]);
            }
        } else {
            proof {
                assert(!keep_seg(segs_dv[k as int]));
                assert(kept.deep_view() + Seq::<Seq<char>>::empty() =~~= kept.deep_view());
            }
        }
        k += 1;
    }
    proof {
        assert(segs_dv.subrange(0, segs_dv.len() as int) =~= segs_dv);
        assert forall|m: int| 0 <= m < segs_dv.len() implies segs_dv[m] != ".."@ by {}
        assert(!any_parent_seg(segments(entry_path@)));
    }
    let normalized = join_kept(&kept);
    proof {
        assert(normalized@ == normalized_path(entry_path@));
    }
    if is_suspicious(&normalized) {
        return Err(ArchiveError::SuspiciousPath);
    }
    let dv = str_to_chars(destination);
    if normalized.len() == 0 {
        let out = chars_to_string(&dv);
        return Ok(out);
    }
    let mut full = dv;
    full.push('/');
    let mut j: usize = 0;
    let ghost base = full@;
    while j < normalized.len()
        invariant
            j <= normalized@.len(),
            full@ == base + normalized@.subrange(0, j as int),
        decreases normalized@.len() - j,
    {
        full.push(normalized[j]);
        j += 1;
        proof {
            assert(full@ =~= base + normalized@.subrange(0, j as int));
        }
    }
    proof {
        assert(normalized@.subrange(0, normalized@.len() as int) =~= normalized@);
        assert(base =~= destination@ + "/"@) by {
            reveal_strlit("/");
        }
        assert(full@ =~= destination@ + "/"@ + normalized@);
    }
    Ok(chars_to_string(&full))
}

/// One normalization step distributes over appending a component.
proof fn lemma_kept_push(segs: Seq<Seq<char>>, t: Seq<char>)
    ensures
        kept_segs(segs.push(t)) == kept_segs(segs) + (if keep_seg(t) {
            seq![t]
        } else {
            Seq::<Seq<char>>::empty()
        }),
    decreases segs.len(),
{
    let tail: Seq<Seq<char>> = if keep_seg(t) {
        seq![t]
    } else {
        Seq::empty()
    };
    if segs.len() == 0 {
        assert(segs.push(t)[0] == t);
        assert(segs.push(t).drop_first() =~= Seq::<Seq<char>>::empty());
        assert(kept_segs(Seq::<Seq<char>>::empty()) == Seq::<Seq<char>>::empty());
        assert((if keep_seg(t) {
            seq![t]
        } else {
            Seq::<Seq<char>>::empty()
        }) + Seq::<Seq<char>>::empty() =~= tail);
        assert(kept_segs(segs) + tail =~= tail);
    } else {
        assert(segs.push(t)[0] == segs[0]);
        assert(segs.push(t).drop_first() =~= segs.drop_first().push(t));
        lemma_kept_push(segs.drop_first(), t);
        let head: Seq<Seq<char>> = if keep_seg(segs[0]) {
            seq![segs[0]]
        } else {
            Seq::empty()
        };
        assert(kept_segs(segs.push(t)) == head + (kept_segs(segs.drop_first()) + tail));
        assert(head + (kept_segs(segs.drop_first()) + tail) =~= (head + kept_segs(
            segs.drop_first(),
        )) + tail);
    }
}

/// Joins the kept components with `/`.
fn join_kept(kept: &Vec<Vec<char>>) -> (r: Vec<char>)
    ensures
        r@ == join_from(kept.deep_view(), 0),
{
    join_kept_from(kept, 0)
}

/// Joins the kept components from `i` on with `/`.
fn join_kept_from(kept: &Vec<Vec<char>>, i: usize) -> (r: Vec<char>)
    requires
        i <= kept@.len(),
    ensures
        r@ == join_from(kept.deep_view(), i as int),
    decreases kept@.len() - i,
{
    if i == kept.len() {
        Vec::new()
    } else if i + 1 == kept.len() {
        let r = kept[i].clone();
        proof {
            assert(kept.deep_view()[i as int] =~= kept@[i as int]@);
        }
        r
    } else {
        let mut r = kept[i].clone();
        r.push('/');
        let rest = join_kept_from(kept, i + 1);
        let mut j: usize = 0;
        let ghost base = r@;
        while j < rest.len()
            invariant
                j <= rest@.len(),
                r@ == base + rest@.subrange(0, j as int),
            decreases rest@.len() - j,
        {
            r.push(rest[j]);
            j += 1;
            proof {
                assert(r@ =~= base + rest@.subrange(0, j as int));
            }
        }
        proof {
            assert(rest@.subrange(0, rest@.len() as int) =~= rest@);
            assert(kept.deep_view()[i as int] =~= kept@[i as int]@);
            assert(base =~= kept.deep_view()[i as int] + "/"@) by {
                reveal_strlit("/");
            }
            assert(r@ =~= kept.deep_view()[i as int] + "/"@ + join_from(
                kept.deep_view(),
                i + 1,
            ));
        }
        r
    }
}

/// The residual screen on a normalized path string.
fn is_suspicious(p: &Vec<char>) -> (r: bool)
    ensures
        r == suspicious_path(p@),
{
    let mut hit: bool = false;
    hit = hit || contains_chars(p, &str_to_chars(".."));
    hit = hit || crate::chars::starts_with_chars(p, &str_to_chars("/"));
    hit = hit || crate::chars::starts_with_chars(p, &str_to_chars("\\"));
    hit = hit || contains_one(p, '\u{0}');
    hit = hit || contains_chars(p, &str_to_chars("\\"));
    hit = hit || contains_chars(p, &str_to_chars(".\\"));
    hit = hit || contains_chars(p, &str_to_chars("./"));
    hit = hit || contains_chars(p, &str_to_chars(":\\"));
    hit
}

// ---------------------------------------------------------------------------
// Laws of path validation
// ---------------------------------------------------------------------------

/// A separator-free pattern in the unscanned text lands inside some
/// component.
proof fn lemma_scan_pattern(s: Seq<char>, cur: Seq<char>, acc: Seq<Seq<char>>, pat: Seq<char>)
    requires
        !contains_char(pat, '/'),
        contains_seq(cur + s, pat) || exists|k: int|
            0 <= k < acc.len() && contains_seq(#[trigger] acc[k], pat),
    ensures
        exists|k: int|
            0 <= k < seg_scan(s, cur, acc).len() && contains_seq(
                #[trigger] seg_scan(s, cur, acc)[k],
                pat,
            ),
    decreases s.len(),
{
    let res = seg_scan(s, cur, acc);
    if exists|k: int| 0 <= k < acc.len() && contains_seq(#[trigger] acc[k], pat) {
        let k = choose|k: int| 0 <= k < acc.len() && contains_seq(#[trigger] acc[k], pat);
        if s.len() == 0 {
            assert(res[k] == acc[k]);
        } else if s[0] == '/' {
            assert(acc.push(cur)[k] == acc[k]);
            lemma_scan_pattern(s.drop_first(), Seq::empty(), acc.push(cur), pat);
        } else {
            lemma_scan_pattern(s.drop_first(), cur.push(s[0]), acc, pat);
        }
    } else {
        let i = choose|i: int| matches_at(cur + s, pat, i);
        if s.len() == 0 {
            assert(contains_seq(cur, pat)) by {
                assert(cur + s =~= cur);
            }
            assert(res[acc.len() as int] == cur);
        } else if s[0] == '/' {
            if pat.len() == 0 {
                assert(matches_at(Seq::<char>::empty() + s.drop_first(), pat, 0));
                lemma_scan_pattern(s.drop_first(), Seq::empty(), acc.push(cur), pat);
            } else if i + pat.len() <= cur.len() {
                assert(matches_at(cur, pat, i)) by {
                    assert forall|j: int| 0 <= j < pat.len() implies cur[i + j] == pat[j] by {
                        assert((cur + s)[i + j] == cur[i + j]);
                    }
                }
                assert(acc.push(cur)[acc.len() as int] == cur);
                lemma_scan_pattern(s.drop_first(), Seq::empty(), acc.push(cur), pat);
            } else {
                // the pattern cannot cover the separator itself
                assert(i > cur.len()) by {
                    if i <= cur.len() {
                        let off = cur.len() - i;
                        assert(0 <= off < pat.len());
                        assert((cur + s)[cur.len() as int] == s[0]);
                        assert(pat[off] == '/');
                        assert(contains_char(pat, '/'));
                    }
                }
                let s2 = s.drop_first();
                assert(matches_at(Seq::<char>::empty() + s2, pat, i - cur.len() - 1)) by {
                    assert(Seq::<char>::empty() + s2 =~= s2);
                    assert forall|j: int| 0 <= j < pat.len() implies s2[i - cur.len() - 1 + j]
                        == pat[j] by {
                        assert((cur + s)[i + j] == s[i - cur.len() + j]);
                        assert(s[i - cur.len() + j] == s2[i - cur.len() - 1 + j]);
                    }
                }
                lemma_scan_pattern(s2, Seq::empty(), acc.push(cur), pat);
            }
        } else {
            assert(cur.push(s[0]) + s.drop_first() =~= cur + s);
            lemma_scan_pattern(s.drop_first(), cur.push(s[0]), acc, pat);
        }
    }
}

/// A component that survives normalization occurs among the kept ones.
proof fn lemma_kept_retains(segs: Seq<Seq<char>>, k: int)
    requires
        0 <= k < segs.len(),
        keep_seg(segs[k]),
    ensures
        exists|m: int|
            0 <= m < kept_segs(segs).len() && #[trigger] kept_segs(segs)[m] == segs[k],
    decreases segs.len(),
{
    let head: Seq<Seq<char>> = if keep_seg(segs[0]) {
        seq![segs[0]]
    } else {
        Seq::empty()
    };
    if k == 0 {
        assert(kept_segs(segs)[0] == segs[0]);
    } else {
        lemma_kept_retains(segs.drop_first(), k - 1);
        let m = choose|m: int|
            0 <= m < kept_segs(segs.drop_first()).len() && #[trigger] kept_segs(
                segs.drop_first(),
            )[m] == segs.drop_first()[k - 1];
        assert(kept_segs(segs)[head.len() + m] == kept_segs(segs.drop_first())[m]);
    }
}

/// Each component is a substring of the joined path.
proof fn lemma_join_contains(segs: Seq<Seq<char>>, i: int, m: int)
    requires
        0 <= i <= m < segs.len(),
    ensures
        contains_seq(join_from(segs, i), segs[m]),
    decreases m - i,
{
    if i == segs.len() - 1 {
        assert(matches_at(segs[i], segs[i], 0));
    } else {
        let rest = join_from(segs, i + 1);
        assert(join_from(segs, i) == segs[i] + "/"@ + rest);
        if i == m {
            assert(matches_at(segs[i], segs[i], 0));
            crate::chars::lemma_contains_left(segs[i], "/"@, segs[i]);
            crate::chars::lemma_contains_left(segs[i] + "/"@, rest, segs[i]);
        } else {
            lemma_join_contains(segs, i + 1, m);
            crate::chars::lemma_contains_right(segs[i] + "/"@, rest, segs[m]);
        }
    }
}

/// Any entry path that holds a parent reference, is absolute, or holds
/// a null byte is rejected — before anything touches the filesystem.
pub proof fn lemma_unsafe_entry_rejected(entry: Seq<char>, dest: Seq<char>)
    requires
        contains_seq(entry, ".."@) || (entry.len() > 0 && entry[0] == '/') || contains_char(
            entry,
            '\u{0}',
        ),
    ensures
        validate_path_spec(entry, dest) is Err,
{
    reveal_strlit("..");
    reveal_strlit(".");
    if entry.len() > 0 && entry[0] == '/' {
    } else if any_parent_seg(segments(entry)) {
    } else {
        let pat: Seq<char> = if contains_seq(entry, ".."@) {
            ".."@
        } else {
            seq!['\u{0}']
        };
        assert(pat.len() <= 2 && pat.len() >= 1);
        assert(!contains_char(pat, '/'));
        if !contains_seq(entry, ".."@) {
            let i = choose|i: int| 0 <= i < entry.len() && entry[i] == '\u{0}';
            assert(matches_at(entry, pat, i));
        }
        assert(contains_seq(Seq::<char>::empty() + entry, pat)) by {
            assert(Seq::<char>::empty() + entry =~= entry);
        }
        lemma_scan_pattern(entry, Seq::empty(), Seq::empty(), pat);
        let segs = segments(entry);
        let k = choose|k: int| 0 <= k < segs.len() && contains_seq(#[trigger] segs[k], pat);
        assert(keep_seg(segs[k])) by {
            let i = choose|i: int| matches_at(segs[k], pat, i);
            assert(segs[k].len() >= pat.len());
            if segs[k] == "."@ {
                assert(segs[k].len() == 1);
                assert(pat.len() == 1 && segs[k][i] == pat[0]);
            }
        }
        lemma_kept_retains(segs, k);
        let m = choose|m: int|
            0 <= m < kept_segs(segs).len() && #[trigger] kept_segs(segs)[m] == segs[k];
        lemma_join_contains(kept_segs(segs), 0, m);
        crate::chars::lemma_contains_trans(normalized_path(entry), segs[k], pat);
        assert(suspicious_path(normalized_path(entry))) by {
            if !contains_seq(entry, ".."@) {
                let i = choose|i: int| matches_at(normalized_path(entry), pat, i);
                assert(pat[0] == '\u{0}');
                assert(normalized_path(entry)[i + 0] == pat[0]);
                assert(normalized_path(entry)[i] == '\u{0}');
            }
        }
    }
}

/// A validated path never leaves the destination subtree: it is the
/// destination itself or lies strictly under it.
pub proof fn lemma_validated_path_within_destination(entry: Seq<char>, dest: Seq<char>)
    requires
        validate_path_spec(entry, dest) is Ok,
    ensures
        validate_path_spec(entry, dest)->Ok_0 == dest || starts_with(
            validate_path_spec(entry, dest)->Ok_0,
            dest + "/"@,
        ),
{
    let nrm = normalized_path(entry);
    if nrm.len() > 0 {
        let p = dest + "/"@ + nrm;
        assert(matches_at(p, dest + "/"@, 0)) by {
            assert forall|j: int| 0 <= j < (dest + "/"@).len() implies p[j] == (dest + "/"@)[j] by {
                assert(p[j] == (dest + "/"@ + nrm)[j]);
            }
        }
    }
}

// ---------------------------------------------------------------------------
// Entry kinds
// ---------------------------------------------------------------------------

/// What kind of entry an archive declares.
#[derive(Debug, Clone, Copy, PartialEq, Eq, Structural)]
pub enum EntryKind {
    File,
    Directory,
    Symlink,
    Other,
}

/// What extraction does with an entry.
#[derive(Debug, Clone, Copy, PartialEq, Eq, Structural)]
pub enum EntryAction {
    WriteFile,
    CreateDir,
    Skip,
}

/// Only regular files and directories are materialized; symlinks and
/// any other special entries are skipped, never followed or created.
pub fn entry_action(kind: EntryKind) -> (r: EntryAction)
    ensures
        kind == EntryKind::File ==> r == EntryAction::WriteFile,
        kind == EntryKind::Directory ==> r == EntryAction::CreateDir,
        kind != EntryKind::File && kind != EntryKind::Directory ==> r == EntryAction::Skip,
{
    match kind {
        EntryKind::File => EntryAction::WriteFile,
        EntryKind::Directory => EntryAction::CreateDir,
        EntryKind::Symlink => EntryAction::Skip,
        EntryKind::Other => EntryAction::Skip,
    }
}

// ---------------------------------------------------------------------------
// Extraction bounds
// ---------------------------------------------------------------------------

/// The configured ceilings of one extraction.
#[derive(Debug, Clone, Copy)]
pub struct ArchiveLimits {
    pub max_files: usize,
    pub max_total_size: u64,
}

/// The running bookkeeping of one extraction: how many entries were
/// admitted, and their summed declared sizes (saturating).
#[derive(Debug, Clone, Copy)]
pub struct ExtractionGuard {
    pub limits: ArchiveLimits,
    pub file_count: usize,
    pub total_size: u64,
}

impl ExtractionGuard {
    /// A fresh guard with nothing admitted.
    pub fn new(limits: ArchiveLimits) -> (r: Self)
        ensures
            r.limits == limits,
            r.file_count == 0,
            r.total_size == 0,
    {
        ExtractionGuard { limits, file_count: 0, total_size: 0 }
    }

    /// Admits one entry, or aborts the extraction: the entry count is
    /// checked incrementally, so the bound is refused the moment it
    /// would be exceeded, never after; the declared sizes accumulate
    /// saturating, so an overflow cannot wrap the size check.
    pub fn admit_entry(&mut self, declared_size: u64) -> (r: Result<(), ArchiveError>)
        requires
            old(self).file_count <= old(self).limits.max_files,
            old(self).total_size <= old(self).limits.max_total_size,
        ensures
            final(self).limits == old(self).limits,
            match r {
                Ok(()) => {
                    &&& final(self).file_count == old(self).file_count + 1
                    &&& final(self).file_count <= final(self).limits.max_files
                    &&& final(self).total_size == sat_add(old(self).total_size, declared_size)
                    &&& final(self).total_size <= final(self).limits.max_total_size
                },
                Err(e) => {
                    &&& (e == ArchiveError::TooManyFiles <==> old(self).file_count + 1 > old(
                        self,
                    ).limits.max_files)
                    &&& (e == ArchiveError::ArchiveTooLarge <==> old(self).file_count + 1 <= old(
                        self,
                    ).limits.max_files && sat_add(old(self).total_size, declared_size) > old(
                        self,
                    ).limits.max_total_size)
                    &&& (e == ArchiveError::TooManyFiles || e == ArchiveError::ArchiveTooLarge)
                },
            },
            r is Ok <==> old(self).file_count + 1 <= old(self).limits.max_files && sat_add(
                old(self).total_size,
                declared_size,
            ) <= old(self).limits.max_total_size,
    {
        if self.file_count == self.limits.max_files {
            return Err(ArchiveError::TooManyFiles);
        }
        self.file_count = self.file_count + 1;
        let new_total = if declared_size > u64::MAX - self.total_size {
            u64::MAX
        } else {
            self.total_size + declared_size
        };
        if new_total > self.limits.max_total_size {
            return Err(ArchiveError::ArchiveTooLarge);
        }
        self.total_size = new_total;
        Ok(())
    }
}

/// Saturating 64-bit addition.
pub open spec fn sat_add(a: u64, b: u64) -> u64 {
    if a + b > u64::MAX {
        u64::MAX
    } else {
        (a + b) as u64
    }
}

/// The up-front entry-count check used for archives whose formats
/// declare their entry count.
pub fn check_entry_count(count: usize, max_files: usize) -> (r: Result<(), ArchiveError>)
    ensures
        r is Ok <==> count <= max_files,
        r is Err ==> r == Err::<(), ArchiveError>(ArchiveError::TooManyFiles),
{
    if count > max_files {
        Err(ArchiveError::TooManyFiles)
    } else {
        Ok(())
    }
}

} // verus!
