//! The process-execution decisions: whether a compiled invocation
//! needs a command interpreter, how its words are quoted for one, and
//! how a finished run's diagnostic output is classified.
//!
//! Spawning, waiting and output capture live in the thin I/O shell;
//! it hands the exit status and captured diagnostics back to
//! `classify_output`, whose answer is exact.

use vstd::prelude::*;

use crate::chars::chars_to_string;
use crate::chars::contains_char;
use crate::chars::contains_chars;
use crate::chars::contains_one;
use crate::chars::contains_seq;
use crate::chars::lower_seq;
use crate::chars::replace_seq;
use crate::chars::str_to_chars;
use crate::chars::to_lower_chars;
use crate::chars::trim_seq;
use crate::dirs::CellarDirectories;
use crate::dirs::FsError;

verus! {

/// How a finished run is judged.
#[derive(Debug, Clone)]
pub enum RunOutcome {
    /// The process exited successfully.
    Success,
    /// The process exited non-zero, but its diagnostics hold nothing
    /// beyond known-benign noise — logged, not failed.
    BenignNonZero,
    /// The process exited non-zero with genuine error lines, joined
    /// here for diagnostics.
    Failed(String),
}

// ---------------------------------------------------------------------------
// Shell-quoting specification
// ---------------------------------------------------------------------------

/// One argument, quoted for the interpreter when it holds a space, a
/// quote or a backslash: inner double quotes are escaped and the whole
/// argument wrapped in double quotes.
pub open spec fn quote_arg(a: Seq<char>) -> Seq<char> {
    if contains_char(a, ' ') || contains_char(a, '"') || contains_char(a, '\'') || contains_char(
        a,
        '\\',
    ) {
        seq!['"'] + replace_seq(a, seq!['"'], seq!['\\', '"']) + seq!['"']
    } else {
        a
    }
}

/// The quoted arguments from `i` on, joined with spaces.
pub open spec fn quoted_join(args: Seq<Seq<char>>, i: int) -> Seq<char>
    decreases args.len() - i,
{
    if i < 0 || i >= args.len() {
        Seq::empty()
    } else if i == args.len() - 1 {
        quote_arg(args[i])
    } else {
        quote_arg(args[i]) + seq![' '] + quoted_join(args, i + 1)
    }
}

// ---------------------------------------------------------------------------
// Diagnostic-line specification
// ---------------------------------------------------------------------------

/// A line with one trailing carriage return removed.
pub open spec fn strip_cr(l: Seq<char>) -> Seq<char> {
    if l.len() > 0 && l.last() == '\r' {
        l.drop_last()
    } else {
        l
    }
}

/// Splits on newlines; a trailing newline yields no final empty line.
pub open spec fn line_scan(s: Seq<char>, cur: Seq<char>, acc: Seq<Seq<char>>) -> Seq<Seq<char>>
    decreases s.len(),
{
    if s.len() == 0 {
        if cur.len() > 0 {
            acc.push(strip_cr(cur))
        } else {
            acc
        }
    } else if s[0] == '\n' {
        line_scan(s.drop_first(), Seq::empty(), acc.push(strip_cr(cur)))
    } else {
        line_scan(s.drop_first(), cur.push(s[0]), acc)
    }
}

/// The lines of a diagnostic capture.
pub open spec fn split_lines(s: Seq<char>) -> Seq<Seq<char>> {
    line_scan(s, Seq::empty(), Seq::empty())
}

/// A line counts as a critical error when it carries an error or
/// failure marker and matches none of the known-benign diagnostic
/// patterns, and is not blank.
pub open spec fn is_critical_line(l: Seq<char>) -> bool {
    &&& (contains_seq(lower_seq(l), "error"@) || contains_seq(lower_seq(l), "failed"@))
    &&& !contains_seq(l, "fixme:"@)
    &&& !contains_seq(l, "err:setupapi:create_dest_file"@)
    &&& !contains_seq(l, "wine-staging"@)
    &&& !contains_seq(l, "experimental patches"@)
    &&& !contains_seq(l, "winediag:"@)
    &&& !contains_seq(lower_seq(l), "stub"@)
    &&& trim_seq(l).len() > 0
}

/// The critical lines, in order.
pub open spec fn critical_lines(lines: Seq<Seq<char>>) -> Seq<Seq<char>>
    decreases lines.len(),
{
    if lines.len() == 0 {
        Seq::empty()
    } else {
        (if is_critical_line(lines[0]) {
            seq![lines[0]]
        } else {
            Seq::empty()
        }) + critical_lines(lines.drop_first())
    }
}

/// The lines from `i` on, joined with newlines.
pub open spec fn lines_joined(lines: Seq<Seq<char>>, i: int) -> Seq<char>
    decreases lines.len() - i,
{
    if i < 0 || i >= lines.len() {
        Seq::empty()
    } else if i == lines.len() - 1 {
        lines[i]
    } else {
        lines[i] + seq!['\n'] + lines_joined(lines, i + 1)
    }
}

// ---------------------------------------------------------------------------
// The launcher
// ---------------------------------------------------------------------------

/// Executes compiled invocations for one user's store.
#[derive(Debug, Clone)]
pub struct GameLauncher {
    pub dirs: CellarDirectories,
}

impl GameLauncher {
    /// A launcher over the current user's store.
    pub fn new() -> (r: Result<Self, FsError>)
        ensures
            r matches Ok(l) ==> l.dirs.consistent(),
            r matches Err(e) ==> e == FsError::NoHomeDirectory,
    {
        match CellarDirectories::new() {
            Ok(dirs) => Ok(GameLauncher { dirs }),
            Err(e) => Err(e),
        }
    }

    /// Whether the invocation must go through a command interpreter:
    /// its first word looks like an environment assignment.
    pub fn needs_shell(&self, command: &Vec<String>) -> (r: bool)
        ensures
            r == (command.deep_view().len() > 0 && contains_char(command.deep_view()[0], '=')),
    {
        if command.len() == 0 {
            return false;
        }
        let first = str_to_chars(command[0].as_str());
        proof {
            assert(command.deep_view()[0] =~= command@[0]@);
        }
        contains_one(&first, '=')
    }

    /// The whole invocation as one interpreter line, space-joined with
    /// space-, quote- and backslash-aware quoting.
    pub fn shell_quote_command(&self, args: &Vec<String>) -> (r: String)
        ensures
            r@ == quoted_join(args.deep_view(), 0),
    {
        let joined = quote_join_from(args, 0);
        chars_to_string(&joined)
    }

    /// Judges a finished run: success passes through; a non-zero exit
    /// fails only if genuine error lines remain after the benign noise
    /// is filtered away, and those lines are reported joined.
    pub fn classify_output(&self, success: bool, stderr: &str) -> (r: RunOutcome)
        ensures
            success ==> r is Success,
            !success && critical_lines(split_lines(stderr@)).len() == 0 ==> r is BenignNonZero,
            !success && critical_lines(split_lines(stderr@)).len() > 0 ==> (r matches RunOutcome::Failed(
                msg,
            ) && msg@ == lines_joined(critical_lines(split_lines(stderr@)), 0)),
    {
        if success {
            return RunOutcome::Success;
        }
        let lines = split_lines_exec(stderr);
        let ghost all = split_lines(stderr@);
        let mut critical: Vec<Vec<char>> = Vec::new();
        let mut i: usize = 0;
        proof {
            assert(all.subrange(0, 0) =~= Seq::<Seq<char>>::empty());
            assert(critical.deep_view() =~~= critical_lines(all.subrange(0, 0)));
        }
        while i < lines.len()
            invariant
                i <= lines@.len(),
                lines.deep_view() == all,
                critical.deep_view() == critical_lines(all.subrange(0, i as int)),
            decreases lines@.len() - i,
        {
            let ghost prefix = all.subrange(0, i as int);
            proof {
                assert(lines.deep_view()[i as int] =~= lines@[i as int]@);
                assert(all.subrange(0, i + 1) =~= prefix.push(all[i as int]));
                lemma_critical_push(prefix, all[i as int]);
            }
            let ghost pre = critical.deep_view();
            if is_critical_exec(&lines[i]) {
                let line = lines[i].clone();
                critical.push(line);
                proof {
                    assert(critical.deep_view() =~~= pre.push(all[i as int]));
                    assert(pre.push(all[i as int]) =~~= pre + seq![all[i as int]]);
                }
            } else {
                proof {
                    assert(pre + Seq::<Seq<char>>::empty() =~~= pre);
                }
            }
            i += 1;
        }
        proof {
            assert(all.subrange(0, all.len() as int) =~= all);
        }
        if critical.len() == 0 {
            return RunOutcome::BenignNonZero;
        }
        let joined = join_lines_from(&critical, 0);
        RunOutcome::Failed(chars_to_string(&joined))
    }
}

/// One filter step distributes over appending a line.
proof fn lemma_critical_push(lines: Seq<Seq<char>>, l: Seq<char>)
    ensures
        critical_lines(lines.push(l)) == critical_lines(lines) + (if is_critical_line(l) {
            seq![l]
        } else {
            Seq::<Seq<char>>::empty()
        }),
    decreases lines.len(),
{
    let tail: Seq<Seq<char>> = if is_critical_line(l) {
        seq![l]
    } else {
        Seq::empty()
    };
    if lines.len() == 0 {
        assert(lines.push(l)[0] == l);
        assert(lines.push(l).drop_first() =~= Seq::<Seq<char>>::empty());
        assert(critical_lines(Seq::<Seq<char>>::empty()) == Seq::<Seq<char>>::empty());
        assert(tail + Seq::<Seq<char>>::empty() =~= tail);
        assert(critical_lines(lines) + tail =~= tail);
    } else {
        assert(lines.push(l)[0] == lines[0]);
        assert(lines.push(l).drop_first() =~= lines.drop_first().push(l));
        lemma_critical_push(lines.drop_first(), l);
        let head: Seq<Seq<char>> = if is_critical_line(lines[0]) {
            seq![lines[0]]
        } else {
            Seq::empty()
        };
        assert(critical_lines(lines.push(l)) == head + (critical_lines(lines.drop_first())
            + tail));
        assert(head + (critical_lines(lines.drop_first()) + tail) =~= (head + critical_lines(
            lines.drop_first(),
        )) + tail);
    }
}

/// Splits captured diagnostics into lines.
fn split_lines_exec(s: &str) -> (r: Vec<Vec<char>>)
    ensures
        r.deep_view() == split_lines(s@),
{
    let cs = str_to_chars(s);
    let mut acc: Vec<Vec<char>> = Vec::new();
    let mut cur: Vec<char> = Vec::new();
    let mut i: usize = 0;
    proof {
        assert(cs@.subrange(0, cs@.len() as int) =~= cs@);
        assert(acc.deep_view() =~~= Seq::<Seq<char>>::empty());
    }
    while i < cs.len()
        invariant
            i <= cs@.len(),
            cs@ == s@,
            split_lines(s@) == line_scan(
                cs@.subrange(i as int, cs@.len() as int),
                cur@,
                acc.deep_view(),
            ),
        decreases cs@.len() - i,
    {
        let ghost rest = cs@.subrange(i as int, cs@.len() as int);
        let ghost rest2 = cs@.subrange(i + 1, cs@.len() as int);
        let ghost old_acc = acc.deep_view();
        let ghost old_cur = cur@;
        proof {
            assert(rest[0] == cs@[i as int]);
            assert(rest.drop_first() =~= rest2);
        }
        let c = cs[i];
        if c == '\n' {
            let mut done = cur;
            if done.len() > 0 && done[done.len() - 1] == '\r' {
                done.pop();
                proof {
                    assert(done@ =~= strip_cr(old_cur));
                }
            } else {
                proof {
                    assert(done@ =~= strip_cr(old_cur));
                }
            }
            cur = Vec::new();
            acc.push(done);
            proof {
                assert(acc.deep_view() =~~= old_acc.push(strip_cr(old_cur)));
                assert(line_scan(rest, old_cur, old_acc) == line_scan(
                    rest2,
                    Seq::empty(),
                    old_acc.push(strip_cr(old_cur)),
                ));
                assert(cur@ =~= Seq::<char>::empty());
            }
        } else {
            cur.push(c);
            proof {
                assert(line_scan(rest, old_cur, old_acc) == line_scan(
                    rest2,
                    old_cur.push(c),
                    old_acc,
                ));
            }
        }
        i += 1;
    }
    if cur.len() > 0 {
        let ghost old_acc = acc.deep_view();
        let ghost old_cur = cur@;
        let mut done = cur;
        if done[done.len() - 1] == '\r' {
            done.pop();
            proof {
                assert(done@ =~= strip_cr(old_cur));
            }
        } else {
            proof {
                assert(done@ =~= strip_cr(old_cur));
            }
        }
        acc.push(done);
        proof {
            assert(acc.deep_view() =~~= old_acc.push(strip_cr(old_cur)));
        }
    }
    acc
}

/// The critical-error decision on one line.
fn is_critical_exec(l: &Vec<char>) -> (r: bool)
    ensures
        r == is_critical_line(l@),
{
    let lower = to_lower_chars(l);
    let marked = contains_chars(&lower, &str_to_chars("error")) || contains_chars(
        &lower,
        &str_to_chars("failed"),
    );
    if !marked {
        return false;
    }
    if contains_chars(l, &str_to_chars("fixme:")) {
        return false;
    }
    if contains_chars(l, &str_to_chars("err:setupapi:create_dest_file")) {
        return false;
    }
    if contains_chars(l, &str_to_chars("wine-staging")) {
        return false;
    }
    if contains_chars(l, &str_to_chars("experimental patches")) {
        return false;
    }
    if contains_chars(l, &str_to_chars("winediag:")) {
        return false;
    }
    if contains_chars(&lower, &str_to_chars("stub")) {
        return false;
    }
    let trimmed = crate::chars::trim_chars(l);
    trimmed.len() > 0
}

/// The lines from `i` on, joined with newlines.
fn join_lines_from(lines: &Vec<Vec<char>>, i: usize) -> (r: Vec<char>)
    requires
        i <= lines@.len(),
    ensures
        r@ == lines_joined(lines.deep_view(), i as int),
    decreases lines@.len() - i,
{
    if i == lines.len() {
        Vec::new()
    } else if i + 1 == lines.len() {
        let r = lines[i].clone();
        proof {
            assert(lines.deep_view()[i as int] =~= lines@[i as int]@);
        }
        r
    } else {
        let mut r = lines[i].clone();
        r.push('\n');
        let rest = join_lines_from(lines, i + 1);
        let mut j: usize = 0;
        let ghost base = r@;
        while j < rest.len()
            invariant
                j <= rest@.len(),
                r@ == base + rest@.subrange(0, j as int),
            decreases rest@.len() - j,
        {
            r.push(rest[j]);
            j += 1;
            proof {
                assert(r@ =~= base + rest@.subrange(0, j as int));
            }
        }
        proof {
            assert(rest@.subrange(0, rest@.len() as int) =~= rest@);
            assert(lines.deep_view()[i as int] =~= lines@[i as int]@);
            assert(r@ =~= lines.deep_view()[i as int] + seq!['\n'] + lines_joined(
                lines.deep_view(),
                i + 1,
            ));
        }
        r
    }
}

/// Quotes one argument for the interpreter.
fn quote_one(a: &Vec<char>) -> (r: Vec<char>)
    ensures
        r@ == quote_arg(a@),
{
    let needs = contains_one(a, ' ') || contains_one(a, '"') || contains_one(a, '\'')
        || contains_one(a, '\\');
    if !needs {
        return crate::chars::slice_chars(a, 0, a.len());
    }
    let from = str_to_chars("\"");
    let to = str_to_chars("\\\"");
    proof {
        assert(from@ =~= seq!['"']) by {
            reveal_strlit("\"");
        }
        assert(to@ =~= seq!['\\', '"']) by {
            reveal_strlit("\\\"");
        }
    }
    let escaped = crate::chars::replace_chars(a, &from, &to);
    let mut r: Vec<char> = Vec::new();
    r.push('"');
    let mut i: usize = 0;
    let ghost base = r@;
    while i < escaped.len()
        invariant
            i <= escaped@.len(),
            r@ == base + escaped@.subrange(0, i as int),
        decreases escaped@.len() - i,
    {
        r.push(escaped[i]);
        i += 1;
        proof {
            assert(r@ =~= base + escaped@.subrange(0, i as int));
        }
    }
    r.push('"');
    proof {
        assert(escaped@.subrange(0, escaped@.len() as int) =~= escaped@);
        assert(r@ =~= seq!['"'] + replace_seq(a@, seq!['"'], seq!['\\', '"']) + seq!['"']);
    }
    r
}

/// The quoted arguments from `i` on, joined with spaces.
fn quote_join_from(args: &Vec<String>, i: usize) -> (r: Vec<char>)
    requires
        i <= args@.len(),
    ensures
        r@ == quoted_join(args.deep_view(), i as int),
    decreases args@.len() - i,
{
    if i == args.len() {
        Vec::new()
    } else {
        let a = str_to_chars(args[i].as_str());
        proof {
            assert(args.deep_view()[i as int] =~= args@[i as int]@);
        }
        let q = quote_one(&a);
        if i + 1 == args.len() {
            q
        } else {
            let mut r = q;
            r.push(' ');
            let rest = quote_join_from(args, i + 1);
            let mut j: usize = 0;
            let ghost base = r@;
            while j < rest.len()
                invariant
                    j <= rest@.len(),
                    r@ == base + rest@.subrange(0, j as int),
                decreases rest@.len() - j,
            {
                r.push(rest[j]);
                j += 1;
                proof {
                    assert(r@ =~= base + rest@.subrange(0, j as int));
                }
            }
            proof {
                assert(rest@.subrange(0, rest@.len() as int) =~= rest@);
                assert(r@ =~= quote_arg(args.deep_view()[i as int]) + seq![' '] + quoted_join(
                    args.deep_view(),
                    i + 1,
                ));
            }
            r
        }
    }
}

} // verus!
