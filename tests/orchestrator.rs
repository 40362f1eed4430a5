use git_disjoint::cli::{CommitGrouping, CommitsToConsider};
use git_disjoint::disjoint_branch::DisjointBranchMap;
use git_disjoint::issue_group::Commit;
use git_disjoint::issue_group_map::IssueGroupMap;
use git_disjoint::orchestrator::{Action, Event, Orchestrator, WorkOrder};

fn commit(id: &str, message: &str) -> Commit {
    let summary = message.lines().next().unwrap_or("").to_string();
    Commit::new(id.to_string(), Some(summary), Some(message.to_string()), None)
}

fn work_orders(commits: Vec<Commit>) -> Vec<WorkOrder> {
    let map = IssueGroupMap::try_from_commits(commits, CommitsToConsider::All, CommitGrouping::ByIssue)
        .unwrap();
    DisjointBranchMap::try_from(map).unwrap().into_work_orders()
}

fn two_groups_three_commits() -> Vec<WorkOrder> {
    work_orders(vec![
        commit("c1", "Ticket: AB-1\nfix x"),
        commit("c2", "Ticket: AB-1\nfix y"),
        commit("c3", "Second change\n\nWith a body.\n# ------------------------ >8 ------------------------\nkept"),
    ])
}

fn describe(a: &Action) -> String {
    match a {
        Action::CheckBranch { order, reference } => format!("check {} {}", order, reference),
        Action::WarnExisting { order } => format!("warn {}", order),
        Action::CreateBranch { order } => format!("create {}", order),
        Action::CherryPick { order, commit } => format!("pick {} {}", order, commit),
        Action::SimulatePick { order, commit } => format!("simulate {} {}", order, commit),
        Action::MarkPicked { order, commit } => format!("picked {} {}", order, commit),
        Action::Push { order } => format!("push {}", order),
        Action::EditPullRequest { order } => format!("edit {}", order),
        Action::SubmitPullRequest { order, title, body } => format!("submit {} {} | {}", order, title, body),
        Action::RestoreCheckout { order } => format!("restore {}", order),
        Action::FinishOrder { order } => format!("finish {}", order),
        Action::Finished => "finished".to_string(),
        Action::Abort => "abort".to_string(),
    }
}

/// Drive the machine, answering each action with the event `answer` gives.
fn run(mut m: Orchestrator, answer: impl Fn(&Action) -> Event) -> Vec<String> {
    let mut log = Vec::new();
    for _ in 0..100 {
        let a = m.action();
        log.push(describe(&a));
        if m.is_finished() {
            break;
        }
        m.advance(answer(&a));
    }
    log
}

fn missing_then_complete(a: &Action) -> Event {
    match a {
        Action::CheckBranch { .. } => Event::BranchMissing,
        Action::EditPullRequest { .. } => Event::Edited("Edited title\n\nEdited body\n".to_string()),
        _ => Event::Completed,
    }
}

#[test]
fn dry_run_simulates_every_pick_and_changes_nothing() {
    let m = Orchestrator::new(two_groups_three_commits(), true);
    let log = run(m, missing_then_complete);
    assert_eq!(
        log,
        vec![
            "check 0 refs/heads/AB-1-ticket-ab-1",
            "simulate 0 0",
            "picked 0 0",
            "simulate 0 1",
            "picked 0 1",
            "finish 0",
            "check 1 refs/heads/second-change",
            "simulate 1 0",
            "picked 1 0",
            "finish 1",
            "finished",
        ]
    );
}

#[test]
fn live_run_creates_picks_pushes_and_proposes() {
    let m = Orchestrator::new(two_groups_three_commits(), false);
    let log = run(m, missing_then_complete);
    assert_eq!(
        log,
        vec![
            "check 0 refs/heads/AB-1-ticket-ab-1",
            "create 0",
            "pick 0 0",
            "picked 0 0",
            "pick 0 1",
            "picked 0 1",
            "push 0",
            "edit 0",
            "submit 0 Edited title | Edited body",
            "restore 0",
            "finish 0",
            "check 1 refs/heads/second-change",
            "create 1",
            "pick 1 0",
            "picked 1 0",
            "push 1",
            "submit 1 Second change | With a body.\n# ------------------------ >8 ------------------------\nkept",
            "restore 1",
            "finish 1",
            "finished",
        ]
    );
}

#[test]
fn an_existing_branch_is_skipped() {
    let m = Orchestrator::new(two_groups_three_commits(), false);
    let log = run(m, |a| match a {
        Action::CheckBranch { order: 0, .. } => Event::BranchExists,
        Action::CheckBranch { .. } => Event::BranchMissing,
        _ => Event::Completed,
    });
    assert_eq!(&log[..3], &["check 0 refs/heads/AB-1-ticket-ab-1", "warn 0", "check 1 refs/heads/second-change"]);
}

#[test]
fn a_failure_aborts_the_run() {
    let m = Orchestrator::new(two_groups_three_commits(), false);
    let log = run(m, |a| match a {
        Action::CheckBranch { .. } => Event::BranchMissing,
        Action::CherryPick { .. } => Event::Failed,
        _ => Event::Completed,
    });
    assert_eq!(log, vec!["check 0 refs/heads/AB-1-ticket-ab-1", "create 0", "pick 0 0", "abort"]);
}

#[test]
fn an_empty_edit_aborts_the_run() {
    let m = Orchestrator::new(two_groups_three_commits(), false);
    let log = run(m, |a| match a {
        Action::CheckBranch { .. } => Event::BranchMissing,
        Action::EditPullRequest { .. } => Event::Edited(String::new()),
        _ => Event::Completed,
    });
    assert_eq!(log.last().unwrap(), "abort");
    assert!(!log.iter().any(|l| l.starts_with("submit")));
}

#[test]
fn no_work_orders_finish_at_once() {
    let m = Orchestrator::new(vec![], false);
    assert!(m.is_finished());
    assert_eq!(m.len(), 0);
    assert_eq!(describe(&m.action()), "finished");
}
