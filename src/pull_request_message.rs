//! The text offered to the user to write a pull-request message in.
use vstd::prelude::*;

use crate::issue_group::Commit;
use crate::pull_request_metadata::{split_lines, text_lines, truncate};
use crate::text::texts;

verus! {

/// Above the commits: the ignore marker and what to write.
pub const PULL_REQUEST_HEADER: &'static str = "
# ------------------------ >8 ------------------------
# Do not modify or remove the line above.
# Everything below it will be ignored.

Write a message for this pull request. The first block
of text is the title and the rest is the description.

Changes:
";

/// What `{:?}` makes of a text: quoted, with special characters escaped.
pub uninterp spec fn debug_quoted(s: Seq<char>) -> Seq<char>;

/// Relies on `<str as Debug>::fmt`: the quoted form depends on the text alone.
#[verifier::external_body]
fn quoted(s: &str) -> (r: String)
    ensures
        r@ == debug_quoted(s@),
{
    format!("{:?}", s)
}

pub open spec fn short_id(id: Seq<char>) -> Seq<char> {
    if id.len() <= 7 {
        id
    } else {
        id.subrange(0, 7)
    }
}

/// Each line indented by four spaces and ended by a newline.
pub open spec fn indented(lines: Seq<Seq<char>>) -> Seq<char>
    decreases lines.len(),
{
    if lines.len() == 0 {
        Seq::empty()
    } else {
        indented(lines.drop_last()) + "    "@ + lines.last() + "\n"@
    }
}

/// One commit in the template: short id, quoted author, the message indented,
/// and a blank line.
pub open spec fn commit_entry(c: Commit) -> Seq<char> {
    let author = match c.author {
        Some(a) => a@,
        None => Seq::empty(),
    };
    let lines = match c.message {
        Some(m) => text_lines(m@),
        None => Seq::empty(),
    };
    short_id(c.id@) + " ("@ + debug_quoted(author) + ")\n"@ + indented(lines) + "\n"@
}

pub open spec fn commit_entries(commits: Seq<Commit>) -> Seq<char>
    decreases commits.len(),
{
    if commits.len() == 0 {
        Seq::empty()
    } else {
        commit_entries(commits.drop_last()) + commit_entry(commits.last())
    }
}

/// The whole template: the header, a newline, then every commit.
pub open spec fn template_text(commits: Seq<Commit>) -> Seq<char> {
    PULL_REQUEST_HEADER@ + "\n"@ + commit_entries(commits)
}

fn indent_lines(text: &str) -> (r: String)
    ensures
        r@ == indented(text_lines(text@)),
{
    let lines = split_lines(text);
    let mut r = String::new();
    let mut i: usize = 0;
    while i < lines.len()
        invariant
            i <= lines@.len(),
            texts(lines@) == text_lines(text@),
            r@ == indented(texts(lines@).subrange(0, i as int)),
        decreases lines@.len() - i,
    {
        r.append("    ");
        r.append(lines[i].as_str());
        r.append("\n");
        proof {
            let next = texts(lines@).subrange(0, i + 1);
            assert(next.drop_last() =~= texts(lines@).subrange(0, i as int));
            assert(next.last() == lines@[i as int]@);
        }
        i = i + 1;
    }
    assert(texts(lines@).subrange(0, lines@.len() as int) =~= texts(lines@));
    r
}

fn entry_of(c: &Commit) -> (r: String)
    ensures
        r@ == commit_entry(*c),
{
    let mut r = String::from_str(truncate(c.id.as_str(), 7));
    r.append(" (");
    let author = match &c.author {
        Some(a) => quoted(a.as_str()),
        None => quoted(""),
    };
    proof {
        reveal_strlit("");
        assert(""@ =~= Seq::<char>::empty());
    }
    r.append(author.as_str());
    r.append(")\n");
    match &c.message {
        Some(m) => {
            let body = indent_lines(m.as_str());
            r.append(body.as_str());
        },
        None => {
            proof {
                reveal_with_fuel(indented, 1);
            }
            assert(indented(Seq::<Seq<char>>::empty()) =~= Seq::<char>::empty());
        },
    }
    r.append("\n");
    r
}

/// The text to edit: the header, then each commit's short id, author and message.
pub fn pull_request_template(commits: &Vec<Commit>) -> (r: String)
    ensures
        r@ == template_text(commits@),
{
    let mut r = String::from_str(PULL_REQUEST_HEADER);
    r.append("\n");
    let mut i: usize = 0;
    while i < commits.len()
        invariant
            i <= commits@.len(),
            r@ == PULL_REQUEST_HEADER@ + "\n"@ + commit_entries(commits@.subrange(0, i as int)),
        decreases commits@.len() - i,
    {
        let e = entry_of(&commits[i]);
        r.append(e.as_str());
        proof {
            let next = commits@.subrange(0, i + 1);
            assert(next.drop_last() =~= commits@.subrange(0, i as int));
            assert(next.last() == commits@[i as int]);
        }
        i = i + 1;
    }
    assert(commits@.subrange(0, commits@.len() as int) =~= commits@);
    r
}

} // verus!
