//! Reading what `git ls-files` reports: the list of tracked paths on
//! success, and the kind of failure otherwise.
use vstd::prelude::*;

use crate::error::GitlsError;
use crate::filter::texts;

verus! {

/// A line without the carriage return that may end it.
pub open spec fn without_cr(line: Seq<char>) -> Seq<char> {
    if line.len() > 0 && line.last() == '\r' {
        line.drop_last()
    } else {
        line
    }
}

/// The lines ended so far in `s`, and the run of characters after the last
/// line feed.
pub open spec fn split_lines(s: Seq<char>) -> (Seq<Seq<char>>, Seq<char>)
    decreases s.len(),
{
    if s.len() == 0 {
        (Seq::empty(), Seq::empty())
    } else {
        let st = split_lines(s.drop_last());
        if s.last() == '\n' {
            (st.0.push(without_cr(st.1)), Seq::empty())
        } else {
            (st.0, st.1.push(s.last()))
        }
    }
}

/// The lines of `s` as `str::lines` yields them: split at each line feed,
/// a carriage return before the line feed dropped, and no empty line after
/// a final line feed.
pub open spec fn lines_of(s: Seq<char>) -> Seq<Seq<char>> {
    let st = split_lines(s);
    if st.1.len() > 0 {
        st.0.push(st.1)
    } else {
        st.0
    }
}

/// The lines of `lines` that are not empty, in order.
pub open spec fn non_empty(lines: Seq<Seq<char>>) -> Seq<Seq<char>>
    decreases lines.len(),
{
    if lines.len() == 0 {
        Seq::empty()
    } else {
        let rest = non_empty(lines.drop_last());
        if lines.last().len() > 0 {
            rest.push(lines.last())
        } else {
            rest
        }
    }
}

/// Whether `pattern` occurs in `s`.
pub open spec fn occurs_in(s: Seq<char>, pattern: Seq<char>) -> bool {
    exists|i: int| 0 <= i <= s.len() - pattern.len() && #[trigger] s.subrange(i, i + pattern.len()) == pattern
}

/// The text without leading and trailing white space, as `str::trim` gives it.
pub uninterp spec fn trimmed_of(s: Seq<char>) -> Seq<char>;

/// Relies on str::lines: it splits at "\n" and at "\r\n", and yields no
/// empty line after a final line ending.
#[verifier::external_body]
fn lines(s: &str) -> (r: Vec<String>)
    ensures
        texts(r@) == lines_of(s@),
{
    s.lines().map(String::from).collect()
}

/// Relies on str::contains with a `&str` pattern: whether the pattern occurs
/// in the text.
#[verifier::external_body]
fn contains(s: &str, pattern: &str) -> (r: bool)
    ensures
        r == occurs_in(s@, pattern@),
{
    s.contains(pattern)
}

/// Relies on str::trim: the text without leading and trailing white space.
#[verifier::external_body]
fn trim(s: &str) -> (r: &str)
    ensures
        r@ == trimmed_of(s@),
{
    s.trim()
}

/// The tracked paths in the output of `git ls-files`: one per non-empty line.
pub fn tracked_paths(stdout: &str) -> (r: Vec<String>)
    ensures
        texts(r@) == non_empty(lines_of(stdout@)),
{
    let all = lines(stdout);
    let ghost ls = lines_of(stdout@);
    let mut out: Vec<String> = Vec::new();
    let mut i: usize = 0;
    while i < all.len()
        invariant
            i <= all@.len(),
            texts(all@) == ls,
            texts(out@) == non_empty(ls.take(i as int)),
        decreases all@.len() - i,
    {
        assert(ls.take(i + 1).drop_last() =~= ls.take(i as int));
        assert(ls.take(i + 1).last() == all@[i as int]@);
        if all[i].unicode_len() > 0 {
            let ghost before = out@;
            out.push(all[i].clone());
            assert(texts(out@) =~= texts(before).push(all@[i as int]@));
        }
        i = i + 1;
    }
    assert(ls.take(i as int) =~= ls);
    out
}

/// The error for a failed `git ls-files`, from what it wrote to standard
/// error: outside a repository it is `NotAGitRepository`, otherwise a Git
/// error that quotes the trimmed output.
pub fn ls_files_failure(stderr: &str) -> (r: GitlsError)
    ensures
        occurs_in(stderr@, "not a git repository"@) ==> r is NotAGitRepository,
        !occurs_in(stderr@, "not a git repository"@) ==> match r {
            GitlsError::Git { message, source } => message@ == "git ls-files failed: "@
                + trimmed_of(stderr@) && source is None,
            _ => false,
        },
{
    if contains(stderr, "not a git repository") {
        GitlsError::NotAGitRepository
    } else {
        let mut message = String::from_str("git ls-files failed: ");
        message.append(trim(stderr));
        GitlsError::Git { message, source: None }
    }
}

} // verus!
