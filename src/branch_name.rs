//! Branch names derived from issue groups.
use vstd::prelude::*;

use sanitize_git_ref::sanitize_git_ref_onelevel;

use crate::issue_group::{IssueGroup, IssueGroupView};
use crate::text::{chars_of, is_ascii_control, is_white_space};

verus! {

/// A branch name: no `!`, backquote, parenthesis or quote, and no run of hyphens.
#[derive(Debug, Clone, PartialEq, Eq, Hash, PartialOrd, Ord)]
pub struct BranchName(String);

impl View for BranchName {
    type V = Seq<char>;

    closed spec fn view(&self) -> Seq<char> {
        self.0@
    }
}

/// The characters that become a hyphen: they get in the way of tab completion.
pub open spec fn replaced_by_hyphen(c: char) -> bool {
    c == '!' || c == '`' || c == '(' || c == ')'
}

/// The characters that are dropped: they get in the way of tab completion.
pub open spec fn is_quote(c: char) -> bool {
    c == '\'' || c == '"'
}

pub open spec fn hyphen_for(c: char) -> char {
    if replaced_by_hyphen(c) {
        '-'
    } else {
        c
    }
}

pub open spec fn hyphenated(s: Seq<char>) -> Seq<char> {
    s.map_values(|c: char| hyphen_for(c))
}

/// `s` without each hyphen that directly follows another hyphen.
pub open spec fn elided(s: Seq<char>) -> Seq<char>
    decreases s.len(),
{
    if s.len() == 0 {
        s
    } else if s.len() >= 2 && s.last() == '-' && s[s.len() - 2] == '-' {
        elided(s.drop_last())
    } else {
        elided(s.drop_last()).push(s.last())
    }
}

/// `s` without its quote characters.
pub open spec fn unquoted(s: Seq<char>) -> Seq<char>
    decreases s.len(),
{
    if s.len() == 0 {
        s
    } else if is_quote(s.last()) {
        unquoted(s.drop_last())
    } else {
        unquoted(s.drop_last()).push(s.last())
    }
}

/// The branch name made of `s`: quotes dropped, `!`, backquote and parentheses
/// made hyphens, runs of hyphens collapsed.
pub open spec fn branch_text(s: Seq<char>) -> Seq<char> {
    elided(hyphenated(unquoted(s)))
}

/// What `str::to_lowercase` makes of a text.
pub uninterp spec fn lower_of(s: Seq<char>) -> Seq<char>;

/// What `sanitize_git_ref_onelevel` makes of a text.
pub uninterp spec fn sanitized_ref_of(s: Seq<char>) -> Seq<char>;

pub open spec fn no_doubled_hyphen(s: Seq<char>) -> bool {
    forall|i: int| 0 <= i < s.len() - 1 ==> !(#[trigger] s[i] == '-' && s[i + 1] == '-')
}

/// The rules that a sanitized one-level ref keeps.
pub open spec fn ref_safe(s: Seq<char>) -> bool {
    &&& forall|i: int| 0 <= i < s.len() ==> !is_white_space(#[trigger] s[i]) && !is_ascii_control(s[i])
    &&& no_doubled_hyphen(s)
    &&& s.len() > 0 ==> s[0] != '/'
    &&& s.len() > 0 ==> s.last() != '/' && s.last() != '.'
}

pub open spec fn quote_free(s: Seq<char>) -> bool {
    forall|i: int| 0 <= i < s.len() ==> !is_quote(#[trigger] s[i])
}

pub proof fn lemma_elided_keeps(s: Seq<char>, p: spec_fn(char) -> bool)
    requires
        forall|i: int| 0 <= i < s.len() ==> p(#[trigger] s[i]),
    ensures
        forall|i: int| 0 <= i < elided(s).len() ==> p(#[trigger] elided(s)[i]),
    decreases s.len(),
{
    if s.len() > 0 {
        let d = s.drop_last();
        assert forall|i: int| 0 <= i < d.len() implies p(#[trigger] d[i]) by {
            assert(d[i] == s[i]);
        }
        lemma_elided_keeps(d, p);
        let r = elided(s);
        let rd = elided(d);
        assert(p(s[s.len() - 1]));
        assert forall|i: int| 0 <= i < r.len() implies p(#[trigger] r[i]) by {
            if i < rd.len() {
                assert(r[i] == rd[i]);
            }
        }
    }
}

pub proof fn lemma_unquoted_quote_free(s: Seq<char>)
    ensures
        quote_free(unquoted(s)),
        quote_free(s) ==> unquoted(s) == s,
    decreases s.len(),
{
    if s.len() > 0 {
        let d = s.drop_last();
        lemma_unquoted_quote_free(d);
        if quote_free(s) {
            assert(quote_free(d)) by {
                assert forall|i: int| 0 <= i < d.len() implies !is_quote(#[trigger] d[i]) by {
                    assert(d[i] == s[i]);
                }
            }
            assert(!is_quote(s[s.len() - 1]));
            assert(d.push(s.last()) =~= s);
        }
    }
}

pub proof fn lemma_elided_shape(s: Seq<char>)
    ensures
        no_doubled_hyphen(elided(s)),
        s.len() > 0 ==> elided(s).len() > 0 && elided(s)[0] == s[0] && elided(s).last() == s.last(),
        s.len() == 0 ==> elided(s).len() == 0,
    decreases s.len(),
{
    if s.len() > 0 {
        let d = s.drop_last();
        lemma_elided_shape(d);
        if d.len() > 0 {
            assert(d[0] == s[0]);
            assert(d.last() == s[s.len() - 2]);
        }
    }
}

/// Relies on `str::to_lowercase`: the result depends on the text alone.
#[verifier::external_body]
fn lowercase(s: &str) -> (r: String)
    ensures
        r@ == lower_of(s@),
{
    s.to_lowercase()
}

/// Relies on `sanitize_git_ref::sanitize_git_ref_onelevel`: whitespace and ASCII
/// control characters become hyphens, no slash leads, no slash or dot ends, and
/// runs of hyphens are cut to one. It puts in no quote: what it adds is hyphens.
#[verifier::external_body]
fn sanitize_onelevel(s: &str) -> (r: String)
    ensures
        r@ == sanitized_ref_of(s@),
        ref_safe(r@),
        quote_free(s@) ==> quote_free(r@),
{
    sanitize_git_ref_onelevel(s)
}

fn replace_with_hyphens(s: &str) -> (r: String)
    ensures
        r@ == hyphenated(s@),
{
    let cs = chars_of(s);
    let n = cs.len();
    let mut r = String::new();
    let mut i: usize = 0;
    while i < n
        invariant
            cs@ == s@,
            n == s@.len(),
            i <= n,
            r@ == hyphenated(s@.subrange(0, i as int)),
        decreases n - i,
    {
        let c = cs[i];
        if c == '!' || c == '`' || c == '(' || c == ')' {
            r.append("-");
            proof {
                reveal_strlit("-");
            }
        } else {
            r.append(s.substring_char(i, i + 1));
        }
        assert(hyphenated(s@.subrange(0, i + 1)) =~= hyphenated(s@.subrange(0, i as int)).push(
            hyphen_for(s@[i as int]),
        ));
        assert(r@ =~= hyphenated(s@.subrange(0, i + 1)));
        i = i + 1;
    }
    assert(s@.subrange(0, n as int) =~= s@);
    r
}

/// Collapse each run of hyphens to a single hyphen.
pub fn elide_consecutive_hyphens(s: String) -> (r: String)
    ensures
        r@ == elided(s@),
{
    let cs = chars_of(s.as_str());
    let n = cs.len();
    let mut r = String::new();
    let mut i: usize = 0;
    while i < n
        invariant
            cs@ == s@,
            n == s@.len(),
            i <= n,
            r@ == elided(s@.subrange(0, i as int)),
        decreases n - i,
    {
        let ghost next = s@.subrange(0, i + 1);
        assert(next.drop_last() =~= s@.subrange(0, i as int));
        assert(next.last() == s@[i as int]);
        if !(i >= 1 && cs[i] == '-' && cs[i - 1] == '-') {
            r.append(s.as_str().substring_char(i, i + 1));
            assert(r@ =~= elided(next));
        } else {
            assert(next[next.len() - 2] == s@[i - 1]);
        }
        i = i + 1;
    }
    assert(s@.subrange(0, n as int) =~= s@);
    r
}

fn remove_quotes(s: &str) -> (r: String)
    ensures
        r@ == unquoted(s@),
{
    let cs = chars_of(s);
    let n = cs.len();
    let mut r = String::new();
    let mut i: usize = 0;
    while i < n
        invariant
            cs@ == s@,
            n == s@.len(),
            i <= n,
            r@ == unquoted(s@.subrange(0, i as int)),
        decreases n - i,
    {
        let ghost next = s@.subrange(0, i + 1);
        assert(next.drop_last() =~= s@.subrange(0, i as int));
        assert(next.last() == s@[i as int]);
        if !(cs[i] == '\'' || cs[i] == '"') {
            r.append(s.substring_char(i, i + 1));
            assert(r@ =~= unquoted(next));
        }
        i = i + 1;
    }
    assert(s@.subrange(0, n as int) =~= s@);
    r
}

/// The raw name of a group: `<identifier>-<lower-case summary>` for an issue, the
/// lower-case summary key for a lone commit.
pub open spec fn raw_branch_text(group: IssueGroupView, summary: Seq<char>) -> Seq<char> {
    match group {
        IssueGroupView::Issue(issue) => issue.identifier() + seq!['-'] + lower_of(summary),
        IssueGroupView::Commit(s) => lower_of(s),
    }
}

/// The sanitized text a group's branch name is made from: the raw name without
/// quotes, through the one-level ref sanitizer.
pub open spec fn sanitized_branch_text(group: IssueGroupView, summary: Seq<char>) -> Seq<char> {
    sanitized_ref_of(unquoted(raw_branch_text(group, summary)))
}

/// The branch name planned for a group whose first commit has `summary`.
pub open spec fn group_branch_text(group: IssueGroupView, summary: Seq<char>) -> Seq<char> {
    branch_text(sanitized_branch_text(group, summary))
}

impl BranchName {
    pub fn as_str(&self) -> (r: &str)
        ensures
            r@ == self@,
    {
        self.0.as_str()
    }

    /// The branch name for `issue_group`, made from `summary` when the group is an issue.
    pub fn from_issue_group(issue_group: &IssueGroup, summary: &str) -> (r: BranchName)
        ensures
            r@ == group_branch_text(issue_group@, summary@),
            ref_safe(sanitized_branch_text(issue_group@, summary@)),
            quote_free(sanitized_branch_text(issue_group@, summary@)),
    {
        let raw = match issue_group {
            IssueGroup::Issue(issue) => {
                let lower = lowercase(summary);
                let r = String::from_str(issue.issue_identifier()).concat("-").concat(lower.as_str());
                proof {
                    reveal_strlit("-");
                    assert("-"@ =~= seq!['-']);
                }
                r
            },
            IssueGroup::Commit(s) => lowercase(s.0.as_str()),
        };
        assert(raw@ =~= raw_branch_text(issue_group@, summary@));
        let bare = remove_quotes(raw.as_str());
        proof {
            lemma_unquoted_quote_free(raw@);
        }
        let clean = sanitize_onelevel(bare.as_str());
        BranchName::new(clean)
    }

    /// Drop quotes, replace `!`, backquote and parentheses by hyphens, then
    /// collapse runs of hyphens.
    pub fn new(value: String) -> (r: BranchName)
        ensures
            r@ == branch_text(value@),
            no_doubled_hyphen(r@),
    {
        let s = remove_quotes(value.as_str());
        let s = replace_with_hyphens(s.as_str());
        let s = elide_consecutive_hyphens(s);
        proof {
            lemma_elided_shape(hyphenated(unquoted(value@)));
        }
        BranchName(s)
    }

    /// Whether two names are the same text.
    pub fn same_as(&self, other: &BranchName) -> (r: bool)
        ensures
            r == (self@ == other@),
    {
        self.0 == other.0
    }

    /// A copy of the name.
    pub fn clone_name(&self) -> (r: BranchName)
        ensures
            r@ == self@,
    {
        BranchName(self.0.clone())
    }

    /// The name as text.
    pub fn to_string(&self) -> (r: String)
        ensures
            r@ == self@,
    {
        self.0.clone()
    }
}

} // verus!
