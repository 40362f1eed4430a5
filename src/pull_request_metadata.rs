//! Pull-request title and body, read from a commit message or from edited text.
use vstd::prelude::*;

use crate::issue::{run_end, CharClass};
use crate::text::{chars_of, is_white_space, is_whitespace, texts};

verus! {

/// The line below which an edited pull-request message is ignored.
pub const IGNORE_MARKER: &'static str = "# ------------------------ >8 ------------------------";

pub open spec fn marker_text() -> Seq<char> {
    IGNORE_MARKER@
}

/// The number of characters from index `i` up to the next newline or the end.
pub open spec fn line_len(s: Seq<char>, i: int) -> nat
    decreases s.len() - i,
{
    if i < 0 || i >= s.len() || s[i] == '\n' {
        0
    } else {
        1 + line_len(s, i + 1)
    }
}

/// The first index at or after `i` that holds a newline, or the length.
pub open spec fn line_end(s: Seq<char>, i: int) -> int {
    i + line_len(s, i)
}

/// The lines from index `i` on: split at `\n` or `\r\n`; a final line ending adds
/// no empty line.
pub open spec fn lines_from(s: Seq<char>, i: int) -> Seq<Seq<char>>
    decreases s.len() - i,
{
    if i < 0 || i >= s.len() {
        Seq::empty()
    } else {
        let e = line_end(s, i);
        let line = if e < s.len() && e > i && s[e - 1] == '\r' {
            s.subrange(i, e - 1)
        } else {
            s.subrange(i, e)
        };
        if e >= s.len() {
            seq![line]
        } else {
            seq![line] + lines_from(s, e + 1)
        }
    }
}

pub proof fn lemma_line_end(s: Seq<char>, i: int)
    requires
        0 <= i <= s.len(),
    ensures
        i <= line_end(s, i) <= s.len(),
    decreases s.len() - i,
{
    if i < s.len() && s[i] != '\n' {
        lemma_line_end(s, i + 1);
    }
}

pub open spec fn text_lines(s: Seq<char>) -> Seq<Seq<char>> {
    lines_from(s, 0)
}

/// The start of the trailing whitespace of `s[..j]`.
pub open spec fn back_run(s: Seq<char>, j: int) -> int
    decreases j,
{
    if 0 < j <= s.len() && is_white_space(s[j - 1]) {
        back_run(s, j - 1)
    } else {
        j
    }
}

/// `s` without leading and trailing whitespace.
pub open spec fn trimmed(s: Seq<char>) -> Seq<char> {
    let a = run_end(s, 0, CharClass::Space);
    if a >= s.len() {
        Seq::empty()
    } else {
        s.subrange(a, back_run(s, s.len() as int))
    }
}

/// The lines joined with newlines.
pub open spec fn joined(lines: Seq<Seq<char>>) -> Seq<char>
    decreases lines.len(),
{
    if lines.len() == 0 {
        Seq::empty()
    } else if lines.len() == 1 {
        lines[0]
    } else {
        joined(lines.drop_last()) + seq!['\n'] + lines.last()
    }
}

/// The number of lines before the first line that is the ignore marker.
pub open spec fn marker_index(lines: Seq<Seq<char>>, i: int) -> int
    decreases lines.len() - i,
{
    if i < 0 || i >= lines.len() {
        lines.len() as int
    } else if lines[i] == marker_text() {
        i
    } else {
        marker_index(lines, i + 1)
    }
}

/// The lines before the ignore marker.
pub open spec fn until_marker(lines: Seq<Seq<char>>) -> Seq<Seq<char>> {
    lines.take(marker_index(lines, 0))
}

/// The title: the first line, trimmed.
pub open spec fn title_of(s: Seq<char>) -> Seq<char> {
    if text_lines(s).len() > 0 {
        trimmed(text_lines(s)[0])
    } else {
        Seq::empty()
    }
}

/// The body: the lines after the first, up to the ignore marker, joined and trimmed.
pub open spec fn body_of(s: Seq<char>) -> Seq<char> {
    if text_lines(s).len() > 0 {
        trimmed(joined(until_marker(text_lines(s).drop_first())))
    } else {
        Seq::empty()
    }
}

/// The body of a commit message: every line after the first, joined and trimmed.
pub open spec fn message_body_of(s: Seq<char>) -> Seq<char> {
    if text_lines(s).len() > 0 {
        trimmed(joined(text_lines(s).drop_first()))
    } else {
        Seq::empty()
    }
}

/// What is left of edited text when everything from the ignore marker on is cut.
pub open spec fn edited_text(s: Seq<char>) -> Seq<char> {
    joined(until_marker(text_lines(s)))
}

/// The title and body of a pull request.
#[derive(Debug, Clone, PartialEq, Eq, Hash)]
pub struct PullRequestMetadata {
    pub title: String,
    pub body: String,
}

/// Why no pull-request metadata could be read.
#[derive(Debug, PartialEq, Eq, Structural)]
pub enum FromStrError {
    /// The message was empty.
    EmptyPullRequestMessage,
}

impl FromStrError {
    /// What went wrong, in words.
    pub fn to_string(&self) -> (r: String)
        ensures
            r@ == "pull request metadata is empty"@,
    {
        String::from_str("pull request metadata is empty")
    }
}

fn line_end_exec(s: &Vec<char>, i: usize) -> (e: usize)
    requires
        i <= s@.len(),
    ensures
        e as int == line_end(s@, i as int),
        i <= e <= s@.len(),
{
    let n = s.len();
    let mut e = i;
    proof {
        lemma_line_end(s@, i as int);
    }
    while e < n && s[e] != '\n'
        invariant
            n == s@.len(),
            i <= e <= n,
            line_end(s@, e as int) == line_end(s@, i as int),
        decreases n - e,
    {
        e = e + 1;
    }
    e
}

/// The lines of `text`, as `str::lines` gives them.
pub fn split_lines(text: &str) -> (r: Vec<String>)
    ensures
        texts(r@) == text_lines(text@),
{
    let s = chars_of(text);
    let n = s.len();
    let mut r: Vec<String> = Vec::new();
    let mut i: usize = 0;
    while i < n
        invariant
            s@ == text@,
            n == s@.len(),
            i <= n,
            texts(r@) + lines_from(s@, i as int) == text_lines(s@),
        decreases n - i,
    {
        let e = line_end_exec(&s, i);
        proof {
            lemma_line_end(s@, i as int);
        }
        let line = if e < n && e > i && s[e - 1] == '\r' {
            String::from_str(text.substring_char(i, e - 1))
        } else {
            String::from_str(text.substring_char(i, e))
        };
        let ghost before = texts(r@);
        r.push(line);
        proof {
            assert(texts(r@) =~= before.push(line@));
            assert(lines_from(s@, i as int) =~= seq![line@] + lines_from(s@, e + 1));
            assert(texts(r@) + lines_from(s@, e + 1) =~= before + lines_from(s@, i as int));
        }
        if e < n {
            i = e + 1;
        } else {
            i = n;
        }
    }
    assert(texts(r@) + lines_from(s@, n as int) =~= texts(r@));
    r
}

/// `text` without leading and trailing whitespace.
pub fn trim(text: &str) -> (r: String)
    ensures
        r@ == trimmed(text@),
{
    let s = chars_of(text);
    let n = s.len();
    let mut a: usize = 0;
    while a < n && is_whitespace(s[a])
        invariant
            s@ == text@,
            n == s@.len(),
            a <= n,
            run_end(s@, a as int, CharClass::Space) == run_end(s@, 0, CharClass::Space),
        decreases n - a,
    {
        a = a + 1;
    }
    if a >= n {
        return String::new();
    }
    let mut b: usize = n;
    while b > 0 && is_whitespace(s[b - 1])
        invariant
            s@ == text@,
            n == s@.len(),
            a < n,
            !is_white_space(s@[a as int]),
            a < b <= n,
            back_run(s@, b as int) == back_run(s@, n as int),
        decreases b,
    {
        b = b - 1;
    }
    String::from_str(text.substring_char(a, b))
}

/// The lines `lines[from..to]` joined with newlines.
fn join_lines(lines: &Vec<String>, from: usize, to: usize) -> (r: String)
    requires
        from <= to <= lines@.len(),
    ensures
        r@ == joined(texts(lines@).subrange(from as int, to as int)),
{
    let mut r = String::new();
    let mut i = from;
    proof {
        assert(texts(lines@).subrange(from as int, from as int) =~= Seq::<Seq<char>>::empty());
    }
    while i < to
        invariant
            from <= i <= to <= lines@.len(),
            r@ == joined(texts(lines@).subrange(from as int, i as int)),
        decreases to - i,
    {
        let ghost prev = texts(lines@).subrange(from as int, i as int);
        let ghost next = texts(lines@).subrange(from as int, i + 1);
        assert(next.drop_last() =~= prev);
        assert(next.last() == lines@[i as int]@);
        if i > from {
            r.append("\n");
            proof {
                reveal_strlit("\n");
            }
        }
        r.append(lines[i].as_str());
        proof {
            if i > from {
                assert(r@ =~= joined(next));
            } else {
                assert(r@ =~= joined(next));
            }
        }
        i = i + 1;
    }
    r
}

/// The index of the first line from `from` on that is the ignore marker, or the length.
fn find_marker(lines: &Vec<String>, from: usize) -> (r: usize)
    requires
        from <= lines@.len(),
    ensures
        from <= r <= lines@.len(),
        r as int == from + marker_index(texts(lines@).subrange(from as int, lines@.len() as int), 0),
{
    let marker = String::from_str(IGNORE_MARKER);
    let n = lines.len();
    let ghost tail = texts(lines@).subrange(from as int, n as int);
    let mut i = from;
    while i < n
        invariant
            n == lines@.len(),
            from <= i <= n,
            marker@ == marker_text(),
            tail == texts(lines@).subrange(from as int, n as int),
            marker_index(tail, i - from) == marker_index(tail, 0),
        decreases n - i,
    {
        assert(tail[i - from] == lines@[i as int]@);
        if lines[i] == marker {
            return i;
        }
        i = i + 1;
    }
    i
}

impl PullRequestMetadata {
    /// Read the title (first line, trimmed) and body (the following lines up to the
    /// ignore marker, trimmed) of a message; an empty message is an error.
    pub fn from_str(s: &str) -> (r: Result<PullRequestMetadata, FromStrError>)
        ensures
            s@.len() == 0 <==> r is Err,
            r matches Ok(m) ==> m.title@ == title_of(s@) && m.body@ == body_of(s@),
    {
        if s.unicode_len() == 0 {
            return Err(FromStrError::EmptyPullRequestMessage);
        }
        let lines = split_lines(s);
        let n = lines.len();
        if n == 0 {
            return Ok(PullRequestMetadata { title: String::new(), body: String::new() });
        }
        let title = trim(lines[0].as_str());
        let end = find_marker(&lines, 1);
        let joined_body = join_lines(&lines, 1, end);
        let body = trim(joined_body.as_str());
        proof {
            let all = text_lines(s@);
            assert(texts(lines@)[0] == lines@[0]@);
            let rest = all.drop_first();
            assert(texts(lines@).subrange(1, n as int) =~= rest);
            assert(until_marker(rest) =~= rest.take(marker_index(rest, 0)));
            assert(texts(lines@).subrange(1, end as int) =~= rest.take(marker_index(rest, 0)));
        }
        Ok(PullRequestMetadata { title, body })
    }

    /// Read a commit message: the first line, trimmed, is the title; every other
    /// line, joined and trimmed, is the body. An empty message is an error.
    pub fn from_commit_message(s: &str) -> (r: Result<PullRequestMetadata, FromStrError>)
        ensures
            s@.len() == 0 <==> r is Err,
            r matches Ok(m) ==> m.title@ == title_of(s@) && m.body@ == message_body_of(s@),
    {
        if s.unicode_len() == 0 {
            return Err(FromStrError::EmptyPullRequestMessage);
        }
        let lines = split_lines(s);
        let n = lines.len();
        if n == 0 {
            return Ok(PullRequestMetadata { title: String::new(), body: String::new() });
        }
        let title = trim(lines[0].as_str());
        let joined_body = join_lines(&lines, 1, n);
        let body = trim(joined_body.as_str());
        proof {
            assert(texts(lines@)[0] == lines@[0]@);
            assert(texts(lines@).subrange(1, n as int) =~= text_lines(s@).drop_first());
        }
        Ok(PullRequestMetadata { title, body })
    }

    /// Read edited text: everything from the ignore-marker line on is dropped; what
    /// is left must not be empty, and is read as by [`PullRequestMetadata::from_str`].
    pub fn from_edited_text(text: &str) -> (r: Result<PullRequestMetadata, FromStrError>)
        ensures
            edited_text(text@).len() == 0 <==> r is Err,
            r matches Ok(m) ==> m.title@ == title_of(edited_text(text@)) && m.body@ == body_of(
                edited_text(text@),
            ),
    {
        let lines = split_lines(text);
        let end = find_marker(&lines, 0);
        let kept = join_lines(&lines, 0, end);
        proof {
            let all = text_lines(text@);
            assert(texts(lines@).subrange(0, lines@.len() as int) =~= all);
            assert(texts(lines@).subrange(0, end as int) =~= until_marker(all));
        }
        PullRequestMetadata::from_str(kept.as_str())
    }
}

/// The first `max_chars` characters of `s`, or all of it when it is shorter.
pub fn truncate(s: &str, max_chars: usize) -> (r: &str)
    ensures
        s@.len() <= max_chars ==> r@ == s@,
        s@.len() > max_chars ==> r@ == s@.subrange(0, max_chars as int),
{
    let n = s.unicode_len();
    if n <= max_chars {
        s
    } else {
        s.substring_char(0, max_chars)
    }
}

} // verus!
