//! The git command lines that the driver runs.
use vstd::prelude::*;

use crate::text::texts;

verus! {

/// `git cherry-pick --allow-empty <commit>`: an empty diff still makes a commit, so
/// the commits of a branch keep their number and order.
pub fn cherry_pick(commit: &str) -> (r: Vec<String>)
    ensures
        texts(r@) == seq!["git"@, "cherry-pick"@, "--allow-empty"@, commit@],
{
    let r = vec![
        String::from_str("git"),
        String::from_str("cherry-pick"),
        String::from_str("--allow-empty"),
        String::from_str(commit),
    ];
    assert(texts(r@) =~= seq!["git"@, "cherry-pick"@, "--allow-empty"@, commit@]);
    r
}

/// `git push <remote> <branch>`.
pub fn push(remote: &str, branch: &str) -> (r: Vec<String>)
    ensures
        texts(r@) == seq!["git"@, "push"@, remote@, branch@],
{
    let r = vec![
        String::from_str("git"),
        String::from_str("push"),
        String::from_str(remote),
        String::from_str(branch),
    ];
    assert(texts(r@) =~= seq!["git"@, "push"@, remote@, branch@]);
    r
}

/// `git checkout -`: back to the ref checked out before.
pub fn checkout_previous() -> (r: Vec<String>)
    ensures
        texts(r@) == seq!["git"@, "checkout"@, "-"@],
{
    let r = vec![String::from_str("git"), String::from_str("checkout"), String::from_str("-")];
    assert(texts(r@) =~= seq!["git"@, "checkout"@, "-"@]);
    r
}

} // verus!
