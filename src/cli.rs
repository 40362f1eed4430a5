//! The switches that steer grouping, selection and overlay.
use vstd::prelude::*;

verus! {

/// Whether commits without an issue trailer are kept (each as its own group).
#[derive(Debug, Clone, Copy, PartialEq, Eq, Structural)]
pub enum CommitsToConsider {
    All,
    WithTrailer,
}

/// Whether the user picks the groups to act on.
#[derive(Debug, Clone, Copy, PartialEq, Eq, Structural)]
pub enum PromptUserToChooseCommits {
    Yes,
    No,
}

/// Whether all groups are merged into one pull request.
#[derive(Debug, Clone, Copy, PartialEq, Eq, Structural)]
pub enum OverlayCommitsIntoOnePullRequest {
    Yes,
    No,
}

/// Whether commits are grouped by issue or each stands alone.
#[derive(Debug, Clone, Copy, PartialEq, Eq, Structural)]
pub enum CommitGrouping {
    Individual,
    ByIssue,
}

impl From<bool> for CommitsToConsider {
    fn from(value: bool) -> (r: Self) {
        if value {
            CommitsToConsider::All
        } else {
            CommitsToConsider::WithTrailer
        }
    }
}

impl vstd::std_specs::convert::FromSpecImpl<bool> for CommitsToConsider {
    open spec fn obeys_from_spec() -> bool {
        true
    }

    open spec fn from_spec(value: bool) -> Self {
        if value {
            CommitsToConsider::All
        } else {
            CommitsToConsider::WithTrailer
        }
    }
}

impl From<bool> for PromptUserToChooseCommits {
    fn from(value: bool) -> (r: Self) {
        if value {
            PromptUserToChooseCommits::Yes
        } else {
            PromptUserToChooseCommits::No
        }
    }
}

impl vstd::std_specs::convert::FromSpecImpl<bool> for PromptUserToChooseCommits {
    open spec fn obeys_from_spec() -> bool {
        true
    }

    open spec fn from_spec(value: bool) -> Self {
        if value {
            PromptUserToChooseCommits::Yes
        } else {
            PromptUserToChooseCommits::No
        }
    }
}

impl From<bool> for OverlayCommitsIntoOnePullRequest {
    fn from(value: bool) -> (r: Self) {
        if value {
            OverlayCommitsIntoOnePullRequest::Yes
        } else {
            OverlayCommitsIntoOnePullRequest::No
        }
    }
}

impl vstd::std_specs::convert::FromSpecImpl<bool> for OverlayCommitsIntoOnePullRequest {
    open spec fn obeys_from_spec() -> bool {
        true
    }

    open spec fn from_spec(value: bool) -> Self {
        if value {
            OverlayCommitsIntoOnePullRequest::Yes
        } else {
            OverlayCommitsIntoOnePullRequest::No
        }
    }
}

impl From<bool> for CommitGrouping {
    fn from(value: bool) -> (r: Self) {
        if value {
            CommitGrouping::Individual
        } else {
            CommitGrouping::ByIssue
        }
    }
}

impl vstd::std_specs::convert::FromSpecImpl<bool> for CommitGrouping {
    open spec fn obeys_from_spec() -> bool {
        true
    }

    open spec fn from_spec(value: bool) -> Self {
        if value {
            CommitGrouping::Individual
        } else {
            CommitGrouping::ByIssue
        }
    }
}

} // verus!
