//! Commits as the pipeline sees them, and the keys that commits are grouped by.
use vstd::prelude::*;

use crate::issue::{Issue, IssueView};

verus! {

/// What the pipeline reads of a commit. A summary, message or author name that is
/// not valid UTF-8 is `None`.
#[derive(Debug, Clone)]
pub struct Commit {
    pub id: String,
    pub summary: Option<String>,
    pub message: Option<String>,
    pub author: Option<String>,
}

impl Commit {
    pub fn new(id: String, summary: Option<String>, message: Option<String>, author: Option<String>) -> (r: Commit)
        ensures
            r.id == id,
            r.summary == summary,
            r.message == message,
            r.author == author,
    {
        Commit { id, summary, message, author }
    }
}

/// The one-line summary of a commit, used as a group key when a commit stands alone.
#[derive(Debug, Clone, PartialEq, Eq, Hash, PartialOrd, Ord)]
pub struct GitCommitSummary(pub String);

impl View for GitCommitSummary {
    type V = Seq<char>;

    open spec fn view(&self) -> Seq<char> {
        self.0@
    }
}

/// The summary of a commit could not be read as text.
#[derive(Debug)]
pub struct FromCommitError {
    pub commit: String,
}

impl FromCommitError {
    /// `summary for commit <id> is not valid UTF-8`.
    pub fn to_string(&self) -> (r: String)
        ensures
            r@ == "summary for commit "@ + self.commit@ + " is not valid UTF-8"@,
    {
        String::from_str("summary for commit ").concat(self.commit.as_str()).concat(
            " is not valid UTF-8",
        )
    }
}

impl GitCommitSummary {
    /// The summary of `commit`, or an error naming the commit when it is not text.
    pub fn try_from_commit(commit: &Commit) -> (r: Result<GitCommitSummary, FromCommitError>)
        ensures
            match commit.summary {
                Some(s) => r matches Ok(g) && g@ == s@,
                None => r matches Err(e) && e.commit@ == commit.id@,
            },
    {
        match &commit.summary {
            Some(s) => Ok(GitCommitSummary(s.clone())),
            None => Err(FromCommitError { commit: commit.id.clone() }),
        }
    }
}

/// The key of an issue group: an issue, or a single commit's summary.
#[derive(Debug, Clone, PartialEq, Eq, Hash, PartialOrd, Ord)]
pub enum IssueGroup {
    Issue(Issue),
    Commit(GitCommitSummary),
}

pub enum IssueGroupView {
    Issue(IssueView),
    Commit(Seq<char>),
}

impl View for IssueGroup {
    type V = IssueGroupView;

    open spec fn view(&self) -> IssueGroupView {
        match self {
            IssueGroup::Issue(i) => IssueGroupView::Issue(i@),
            IssueGroup::Commit(s) => IssueGroupView::Commit(s@),
        }
    }
}

impl Issue {
    /// A copy of the issue.
    pub fn duplicate(&self) -> (r: Issue)
        ensures
            r@ == self@,
    {
        match self {
            Issue::Jira(t) => Issue::Jira(t.clone()),
            Issue::GitHub(n) => Issue::GitHub(n.clone()),
        }
    }

    /// Whether two issues are the same: same kind, same identifier.
    pub fn same_as(&self, other: &Issue) -> (r: bool)
        ensures
            r == (self@ == other@),
    {
        match (self, other) {
            (Issue::Jira(a), Issue::Jira(b)) => *a == *b,
            (Issue::GitHub(a), Issue::GitHub(b)) => *a == *b,
            _ => false,
        }
    }
}

impl IssueGroup {
    /// A copy of the key.
    pub fn duplicate(&self) -> (r: IssueGroup)
        ensures
            r@ == self@,
    {
        match self {
            IssueGroup::Issue(i) => IssueGroup::Issue(i.duplicate()),
            IssueGroup::Commit(s) => IssueGroup::Commit(GitCommitSummary(s.0.clone())),
        }
    }

    /// Whether two keys name the same group.
    pub fn same_as(&self, other: &IssueGroup) -> (r: bool)
        ensures
            r == (self@ == other@),
    {
        match (self, other) {
            (IssueGroup::Issue(a), IssueGroup::Issue(b)) => a.same_as(b),
            (IssueGroup::Commit(a), IssueGroup::Commit(b)) => a.0 == b.0,
            _ => false,
        }
    }

    /// A human-readable description: the issue's, or the commit summary itself.
    pub fn to_string(&self) -> (r: String)
        ensures
            r@ == match self@ {
                IssueGroupView::Issue(IssueView::Jira(t)) => "Jira "@ + t,
                IssueGroupView::Issue(IssueView::GitHub(n)) => "GitHub #"@ + n,
                IssueGroupView::Commit(s) => s,
            },
    {
        match self {
            IssueGroup::Issue(issue) => issue.to_string(),
            IssueGroup::Commit(summary) => summary.0.clone(),
        }
    }
}

} // verus!
