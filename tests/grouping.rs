use git_disjoint::cli::{
    CommitGrouping, CommitsToConsider, OverlayCommitsIntoOnePullRequest, PromptUserToChooseCommits,
};
use git_disjoint::issue::Issue;
use git_disjoint::issue_group::{Commit, GitCommitSummary, IssueGroup};
use git_disjoint::issue_group_map::{ignores_commit, FromCommitsError, IssueGroupMap};

fn commit(id: &str, message: &str) -> Commit {
    let summary = message.lines().next().unwrap_or("").to_string();
    Commit::new(id.to_string(), Some(summary), Some(message.to_string()), None)
}

fn ids(commits: &[Commit]) -> Vec<String> {
    commits.iter().map(|c| c.id.clone()).collect()
}

fn groups(map: IssueGroupMap) -> Vec<(IssueGroup, Vec<String>)> {
    map.into_entries()
        .into_iter()
        .map(|(k, v)| (k, ids(&v)))
        .collect()
}

fn by_commit(s: &str) -> IssueGroup {
    IssueGroup::Commit(GitCommitSummary(s.to_string()))
}

fn jira(s: &str) -> IssueGroup {
    IssueGroup::Issue(Issue::Jira(s.to_string()))
}

fn sample_commits() -> Vec<Commit> {
    vec![
        commit("c1", "Ticket: AB-1\nfix x"),
        commit("c2", "Ticket: AB-1\nfix y"),
        commit("c3", "no trailer"),
    ]
}

#[test]
fn commits_with_a_ticket_share_a_group_and_others_are_dropped() {
    let commits = sample_commits();
    assert!(ignores_commit(&commits[2], CommitsToConsider::WithTrailer, CommitGrouping::ByIssue));
    assert!(!ignores_commit(&commits[0], CommitsToConsider::WithTrailer, CommitGrouping::ByIssue));
    let map = IssueGroupMap::try_from_commits(
        commits,
        CommitsToConsider::WithTrailer,
        CommitGrouping::ByIssue,
    )
    .unwrap();
    assert_eq!(
        groups(map),
        vec![(jira("AB-1"), vec!["c1".to_string(), "c2".to_string()])]
    );
}

#[test]
fn all_keeps_a_commit_without_trailer_as_its_own_group() {
    let map = IssueGroupMap::try_from_commits(
        sample_commits(),
        CommitsToConsider::All,
        CommitGrouping::ByIssue,
    )
    .unwrap();
    assert_eq!(
        groups(map),
        vec![
            (jira("AB-1"), vec!["c1".to_string(), "c2".to_string()]),
            (by_commit("no trailer"), vec!["c3".to_string()]),
        ]
    );
}

#[test]
fn equal_summaries_get_numbered_groups() {
    let commits = vec![commit("a", "no trailer"), commit("b", "no trailer")];
    let map =
        IssueGroupMap::try_from_commits(commits, CommitsToConsider::All, CommitGrouping::ByIssue)
            .unwrap();
    assert_eq!(
        groups(map),
        vec![
            (by_commit("no trailer"), vec!["a".to_string()]),
            (by_commit("no trailer_1"), vec!["b".to_string()]),
        ]
    );
}

#[test]
fn the_suffix_counter_is_shared_by_all_summaries() {
    let commits = vec![
        commit("a", "x"),
        commit("b", "x"),
        commit("c", "y"),
        commit("d", "y"),
        commit("e", "x_1"),
    ];
    let map =
        IssueGroupMap::try_from_commits(commits, CommitsToConsider::All, CommitGrouping::ByIssue)
            .unwrap();
    let keys: Vec<IssueGroup> = groups(map).into_iter().map(|(k, _)| k).collect();
    assert_eq!(
        keys,
        vec![by_commit("x"), by_commit("x_1"), by_commit("y"), by_commit("y_2"), by_commit("x_1_3")]
    );
}

#[test]
fn separate_gives_each_commit_its_own_group() {
    let commits = vec![
        commit("a", "fix x\n\nTicket: AB-1"),
        commit("b", "fix y\n\nTicket: AB-1"),
    ];
    let map = IssueGroupMap::try_from_commits(
        commits,
        CommitsToConsider::WithTrailer,
        CommitGrouping::Individual,
    )
    .unwrap();
    assert_eq!(
        groups(map),
        vec![
            (by_commit("fix x"), vec!["a".to_string()]),
            (by_commit("fix y"), vec!["b".to_string()]),
        ]
    );
}

#[test]
fn a_summary_that_is_not_text_fails_when_it_names_a_group() {
    let bad = Commit::new("dead".to_string(), None, Some("x".to_string()), None);
    let r = IssueGroupMap::try_from_commits(vec![bad], CommitsToConsider::All, CommitGrouping::ByIssue);
    match r {
        Err(FromCommitsError::InvalidSummary(id)) => assert_eq!(id, "dead"),
        _ => panic!("expected an invalid summary"),
    }
    let bad = Commit::new("dead".to_string(), None, Some("Ticket: Q-1".to_string()), None);
    let r = IssueGroupMap::try_from_commits(vec![bad], CommitsToConsider::All, CommitGrouping::ByIssue);
    assert!(r.is_ok());
}

#[test]
fn no_commits_give_no_groups() {
    let map =
        IssueGroupMap::try_from_commits(vec![], CommitsToConsider::All, CommitGrouping::ByIssue)
            .unwrap();
    assert!(map.keys().is_empty());
}

#[test]
fn classification_twice_gives_the_same_groups() {
    let a = IssueGroupMap::try_from_commits(sample_commits(), CommitsToConsider::All, CommitGrouping::ByIssue)
        .unwrap();
    let b = IssueGroupMap::try_from_commits(sample_commits(), CommitsToConsider::All, CommitGrouping::ByIssue)
        .unwrap();
    assert_eq!(groups(a), groups(b));
}

#[test]
fn group_keys_are_distinct_and_groups_non_empty() {
    let commits = vec![
        commit("a", "x"),
        commit("b", "Ticket: T-1"),
        commit("c", "x"),
        commit("d", "Ticket: T-1"),
    ];
    let entries = groups(
        IssueGroupMap::try_from_commits(commits, CommitsToConsider::All, CommitGrouping::ByIssue).unwrap(),
    );
    for (i, (k, v)) in entries.iter().enumerate() {
        assert!(!v.is_empty());
        for (j, (k2, _)) in entries.iter().enumerate() {
            if i != j {
                assert_ne!(k, k2);
            }
        }
    }
}

#[test]
fn selection_without_prompt_keeps_everything() {
    let map = IssueGroupMap::try_from_commits(sample_commits(), CommitsToConsider::All, CommitGrouping::ByIssue)
        .unwrap();
    let selected = map.select_issues(
        PromptUserToChooseCommits::No,
        OverlayCommitsIntoOnePullRequest::No,
        &vec![],
    );
    assert_eq!(selected.keys(), vec![jira("AB-1"), by_commit("no trailer")]);
}

#[test]
fn selection_keeps_the_chosen_groups_in_order() {
    let map = IssueGroupMap::try_from_commits(sample_commits(), CommitsToConsider::All, CommitGrouping::ByIssue)
        .unwrap();
    let selected = map.select_issues(
        PromptUserToChooseCommits::Yes,
        OverlayCommitsIntoOnePullRequest::No,
        &vec![by_commit("no trailer")],
    );
    assert_eq!(groups(selected), vec![(by_commit("no trailer"), vec!["c3".to_string()])]);
}

#[test]
fn an_empty_choice_leaves_no_group() {
    let map = IssueGroupMap::try_from_commits(sample_commits(), CommitsToConsider::All, CommitGrouping::ByIssue)
        .unwrap();
    let selected = map.select_issues(
        PromptUserToChooseCommits::Yes,
        OverlayCommitsIntoOnePullRequest::No,
        &vec![],
    );
    assert!(selected.keys().is_empty());
}

#[test]
fn overlay_of_selection_joins_commits_under_the_first_key() {
    let commits = vec![
        commit("a", "one"),
        commit("b", "Ticket: T-1"),
        commit("c", "two"),
        commit("d", "Ticket: T-1"),
    ];
    let map = IssueGroupMap::try_from_commits(commits, CommitsToConsider::All, CommitGrouping::ByIssue)
        .unwrap();
    let selected = map.select_issues(
        PromptUserToChooseCommits::No,
        OverlayCommitsIntoOnePullRequest::Yes,
        &vec![by_commit("two"), jira("T-1")],
    );
    let overlaid = selected.apply_overlay(OverlayCommitsIntoOnePullRequest::Yes);
    assert_eq!(
        groups(overlaid),
        vec![(jira("T-1"), vec!["b".to_string(), "d".to_string(), "c".to_string()])]
    );
}

#[test]
fn overlay_of_nothing_is_nothing() {
    let map = IssueGroupMap::try_from_commits(vec![], CommitsToConsider::All, CommitGrouping::ByIssue)
        .unwrap();
    let overlaid = map.apply_overlay(OverlayCommitsIntoOnePullRequest::Yes);
    assert!(overlaid.keys().is_empty());
}

#[test]
fn no_overlay_leaves_groups_alone() {
    let map = IssueGroupMap::try_from_commits(sample_commits(), CommitsToConsider::All, CommitGrouping::ByIssue)
        .unwrap();
    let same = map.apply_overlay(OverlayCommitsIntoOnePullRequest::No);
    assert_eq!(same.keys().len(), 2);
}

#[test]
fn switches_from_flags() {
    assert_eq!(CommitsToConsider::from(true), CommitsToConsider::All);
    assert_eq!(CommitsToConsider::from(false), CommitsToConsider::WithTrailer);
    assert_eq!(CommitGrouping::from(true), CommitGrouping::Individual);
    assert_eq!(PromptUserToChooseCommits::from(false), PromptUserToChooseCommits::No);
    assert_eq!(OverlayCommitsIntoOnePullRequest::from(true), OverlayCommitsIntoOnePullRequest::Yes);
}

#[test]
fn a_commit_summary_is_read_as_text_or_names_the_commit() {
    let good = commit("ok1", "A summary\n\nbody");
    assert_eq!(GitCommitSummary::try_from_commit(&good).unwrap(), GitCommitSummary("A summary".to_string()));
    let bad = Commit::new("bad1".to_string(), None, None, None);
    assert_eq!(GitCommitSummary::try_from_commit(&bad).unwrap_err().commit, "bad1");
}

#[test]
fn group_keys_compare_by_kind_and_text() {
    let a = jira("AB-1");
    assert!(a.same_as(&a.duplicate()));
    assert!(!a.same_as(&by_commit("AB-1")));
    assert!(!a.same_as(&IssueGroup::Issue(Issue::GitHub("AB-1".to_string()))));
    assert!(by_commit("x").same_as(&by_commit("x")));
}

#[test]
fn grouping_errors_in_words() {
    assert_eq!(
        FromCommitsError::InvalidSummary("abc".to_string()).to_string(),
        "summary for commit abc is not valid UTF-8"
    );
    assert_eq!(FromCommitsError::SuffixExhausted.to_string(), "counter addition overflowed");
    let bad = Commit::new("bad2".to_string(), None, None, None);
    assert_eq!(
        GitCommitSummary::try_from_commit(&bad).unwrap_err().to_string(),
        "summary for commit bad2 is not valid UTF-8"
    );
}

#[test]
fn suffixes_past_nine_have_two_digits() {
    let commits: Vec<Commit> = (0..12).map(|i| commit(&format!("c{i}"), "same")).collect();
    let map = IssueGroupMap::try_from_commits(commits, CommitsToConsider::All, CommitGrouping::ByIssue)
        .unwrap();
    let keys = map.keys();
    assert_eq!(keys[10], by_commit("same_10"));
    assert_eq!(keys[11], by_commit("same_11"));
}
