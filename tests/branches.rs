use git_disjoint::branch_name::{elide_consecutive_hyphens, BranchName};
use git_disjoint::cli::{CommitGrouping, CommitsToConsider};
use git_disjoint::disjoint_branch::{DisjointBranchMap, FromIssueGroupMapError};
use git_disjoint::issue::Issue;
use git_disjoint::issue_group::{Commit, GitCommitSummary, IssueGroup};
use git_disjoint::issue_group_map::IssueGroupMap;

fn commit(id: &str, message: &str) -> Commit {
    let summary = message.lines().next().unwrap_or("").to_string();
    Commit::new(id.to_string(), Some(summary), Some(message.to_string()), None)
}

fn names(plan: DisjointBranchMap) -> Vec<String> {
    plan.into_entries()
        .iter()
        .map(|(_, b)| b.branch_name.as_str().to_string())
        .collect()
}

fn plan(commits: Vec<Commit>, all: CommitsToConsider, grouping: CommitGrouping) -> DisjointBranchMap {
    let map = IssueGroupMap::try_from_commits(commits, all, grouping).unwrap();
    DisjointBranchMap::try_from(map).unwrap()
}

#[test]
fn issue_branch_name_is_sanitized_and_lower_case() {
    let group = IssueGroup::Issue(Issue::Jira("AB-1".to_string()));
    let name = BranchName::from_issue_group(&group, "Fix Login (urgent)!");
    assert_eq!(name.as_str(), "AB-1-fix-login-urgent-");
    assert!(!name.as_str().contains("--"));
    assert!(!name.as_str().contains(char::is_whitespace));
}

#[test]
fn commit_branch_name_uses_the_group_summary() {
    let group = IssueGroup::Commit(GitCommitSummary("Add A Thing".to_string()));
    let name = BranchName::from_issue_group(&group, "ignored");
    assert_eq!(name.as_str(), "add-a-thing");
}

#[test]
fn sanitizing_replaces_ref_breaking_characters() {
    let group = IssueGroup::Commit(GitCommitSummary("/a..b~c^d:e?f*g[h@{i\\j.lock/".to_string()));
    let name = BranchName::from_issue_group(&group, "");
    let s = name.as_str();
    for bad in ["..", "~", "^", ":", "?", "*", "[", "@", "\\", " "] {
        assert!(!s.contains(bad), "{:?} holds {:?}", s, bad);
    }
    assert!(!s.starts_with('/'));
    assert!(!s.ends_with('/'));
}

#[test]
fn new_replaces_removes_and_collapses() {
    assert_eq!(BranchName::new("a!b`c(d)e".to_string()).as_str(), "a-b-c-d-e");
    assert_eq!(BranchName::new("x'y\"z".to_string()).as_str(), "xyz");
    assert_eq!(BranchName::new("a---b((c".to_string()).as_str(), "a-b-c");
    assert_eq!(BranchName::new(String::new()).as_str(), "");
}

#[test]
fn consecutive_hyphens_collapse() {
    assert_eq!(elide_consecutive_hyphens("a--b---c-d".to_string()), "a-b-c-d");
    assert_eq!(elide_consecutive_hyphens("--".to_string()), "-");
    assert_eq!(elide_consecutive_hyphens("".to_string()), "");
}

#[test]
fn planned_names_are_distinct() {
    let commits = vec![
        commit("a", "Same"),
        commit("b", "same"),
        commit("c", "SAME"),
    ];
    let names = names(plan(commits, CommitsToConsider::All, CommitGrouping::ByIssue));
    assert_eq!(names, vec!["same".to_string(), "same_1".to_string(), "same_2".to_string()]);
}

#[test]
fn planned_names_follow_the_ref_rules() {
    let commits = vec![
        commit("a", "Hello World"),
        commit("b", "hello world"),
        commit("c", "fix: the /path/ thing."),
        commit("d", "Ticket: T-1\nmore"),
    ];
    let names = names(plan(commits, CommitsToConsider::All, CommitGrouping::ByIssue));
    assert_eq!(names.len(), 4);
    for (i, n) in names.iter().enumerate() {
        assert!(!n.contains(char::is_whitespace));
        assert!(!n.contains(|c: char| c.is_ascii_control()));
        assert!(!n.contains("--"));
        assert!(!n.starts_with('/') && !n.ends_with('/'));
        for (j, m) in names.iter().enumerate() {
            if i != j {
                assert_ne!(n, m);
            }
        }
    }
}

#[test]
fn a_first_summary_that_is_not_text_stops_planning() {
    let mut commits = vec![commit("a", "Ticket: T-1")];
    commits.push(Commit::new("b".to_string(), None, Some("Ticket: T-1".to_string()), None));
    let map = IssueGroupMap::try_from_commits(commits, CommitsToConsider::WithTrailer, CommitGrouping::ByIssue)
        .unwrap();
    assert!(DisjointBranchMap::try_from(map).is_ok());
    let commits = vec![Commit::new("z".to_string(), None, Some("Ticket: T-1".to_string()), None)];
    let map = IssueGroupMap::try_from_commits(commits, CommitsToConsider::WithTrailer, CommitGrouping::ByIssue)
        .unwrap();
    match DisjointBranchMap::try_from(map) {
        Err(FromIssueGroupMapError::InvalidUtf8(id)) => assert_eq!(id, "z"),
        _ => panic!("expected an invalid summary"),
    }
}

#[test]
fn plan_keeps_groups_and_commits_in_order() {
    let commits = vec![commit("a", "Ticket: T-1\nx"), commit("b", "other"), commit("c", "Ticket: T-1\ny")];
    let p = plan(commits, CommitsToConsider::All, CommitGrouping::ByIssue);
    let entries = p.into_entries();
    let seen: Vec<(String, Vec<String>)> = entries
        .iter()
        .map(|(g, b)| (g.to_string(), b.commits.iter().map(|c| c.id.clone()).collect()))
        .collect();
    assert_eq!(
        seen,
        vec![
            ("Jira T-1".to_string(), vec!["a".to_string(), "c".to_string()]),
            ("other".to_string(), vec!["b".to_string()]),
        ]
    );
    let names: Vec<&str> = entries.iter().map(|(_, b)| b.branch_name.as_str()).collect();
    assert_eq!(names, vec!["T-1-ticket-t-1", "other"]);
}

#[test]
fn quotes_are_dropped_before_the_ref_rules_apply() {
    let group = IssueGroup::Commit(GitCommitSummary("'/x".to_string()));
    assert_eq!(BranchName::from_issue_group(&group, "").as_str(), "-x");
    let group = IssueGroup::Commit(GitCommitSummary("a/'".to_string()));
    assert_eq!(BranchName::from_issue_group(&group, "").as_str(), "a");
    let group = IssueGroup::Commit(GitCommitSummary("Use '-' as separator".to_string()));
    assert_eq!(BranchName::from_issue_group(&group, "").as_str(), "use-as-separator");
    assert_eq!(BranchName::new("a-'-b".to_string()).as_str(), "a-b");
}

#[test]
fn planned_names_with_quotes_follow_the_ref_rules() {
    let commits = vec![commit("a", "it's a \"-\" / 'x'"), commit("b", "'/lead"), commit("c", "trail/'")];
    for n in names(plan(commits, CommitsToConsider::All, CommitGrouping::ByIssue)) {
        assert!(!n.contains("--"), "{:?}", n);
        assert!(!n.starts_with('/') && !n.ends_with('/'), "{:?}", n);
        assert!(!n.contains(char::is_whitespace), "{:?}", n);
    }
}

#[test]
fn branch_names_compare_and_print_as_text() {
    let a = BranchName::new("one(two)".to_string());
    assert_eq!(a.to_string(), "one-two-");
    assert!(a.same_as(&a.clone_name()));
    assert!(!a.same_as(&BranchName::new("one".to_string())));
}

#[test]
fn planning_errors_in_words() {
    assert_eq!(
        FromIssueGroupMapError::InvalidUtf8("abc".to_string()).to_string(),
        "commit summary contains invalid UTF-8: abc"
    );
    assert_eq!(FromIssueGroupMapError::SuffixExhausted.to_string(), "counter addition overflowed");
}
