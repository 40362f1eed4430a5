//! The execution of a branch plan as a state machine.
//!
//! The machine decides; its driver acts. The driver asks for the current
//! [`Action`], performs it (a git command, a prompt, a progress update), and hands
//! back what came of it as an [`Event`]. Work orders run one after another; within
//! one, commits are cherry-picked in their order. In a dry run the machine never
//! asks for a change to the repository or the remote: a cherry-pick is simulated,
//! and no branch is created, pushed, proposed or checked out.
use vstd::prelude::*;

use crate::branch_name::BranchName;
use crate::disjoint_branch::{DisjointBranch, DisjointBranchMap};
use crate::issue_group::{Commit, IssueGroup};
use crate::pull_request_metadata::{
    body_of, edited_text, message_body_of, title_of, PullRequestMetadata,
};

verus! {

/// One planned branch and the commits to put on it.
pub struct WorkOrder {
    pub issue_group: IssueGroup,
    pub branch_name: BranchName,
    pub commits: Vec<Commit>,
}

impl WorkOrder {
    pub fn from_planned(issue_group: IssueGroup, plan: DisjointBranch) -> (r: WorkOrder)
        ensures
            r.issue_group == issue_group,
            r.branch_name == plan.branch_name,
            r.commits == plan.commits,
    {
        WorkOrder { issue_group, branch_name: plan.branch_name, commits: plan.commits }
    }
}

impl DisjointBranchMap {
    /// One work order per planned branch, in order.
    pub fn into_work_orders(self) -> (r: Vec<WorkOrder>)
        requires
            self.wf(),
        ensures
            r@.len() == self@.len(),
            forall|i: int|
                0 <= i < r@.len() ==> (#[trigger] r@[i]).issue_group@ == self@[i].0
                    && r@[i].branch_name == self@[i].1.branch_name && r@[i].commits
                    == self@[i].1.commits,
            orders_wf(r@),
    {
        let ghost all = self@;
        let mut rest = self.into_entries();
        let n = rest.len();
        let mut r: Vec<WorkOrder> = Vec::new();
        let mut i: usize = 0;
        while i < n
            invariant
                n == all.len(),
                i <= n,
                forall|j: int| 0 <= j < all.len() ==> (#[trigger] all[j]).1.commits@.len() > 0,
                rest@.len() == n - i,
                forall|j: int|
                    0 <= j < rest@.len() ==> (#[trigger] rest@[j]).0@ == all[i + j].0 && rest@[j].1
                        == all[i + j].1,
                r@.len() == i,
                forall|j: int|
                    0 <= j < i ==> (#[trigger] r@[j]).issue_group@ == all[j].0 && r@[j].branch_name
                        == all[j].1.branch_name && r@[j].commits == all[j].1.commits,
            decreases n - i,
        {
            let ghost before = rest@;
            let (group, plan) = rest.remove(0);
            assert(group@ == all[i as int].0 && plan == all[i as int].1) by {
                assert(before[0].0@ == all[i + 0].0);
            }
            r.push(WorkOrder::from_planned(group, plan));
            assert forall|j: int| 0 <= j < rest@.len() implies (#[trigger] rest@[j]).0@ == all[i + 1 + j].0
                && rest@[j].1 == all[i + 1 + j].1 by {
                assert(rest@[j] == before[j + 1]);
            }
            i = i + 1;
        }
        assert forall|k: int| 0 <= k < r@.len() implies (#[trigger] r@[k]).commits@.len() > 0 by {
            assert(r@[k].commits == all[k].1.commits);
        }
        r
    }
}

/// Where the machine stands.
#[derive(Debug, Clone, Copy, PartialEq, Eq, Structural)]
pub enum Phase {
    /// Asking whether the planned branch already exists.
    Check,
    /// The branch exists: the order is skipped with a warning.
    Skipped,
    /// Creating and checking out the branch at the base commit.
    Create,
    /// Cherry-picking one commit (simulating it in a dry run).
    Pick,
    /// Marking one commit as done.
    Picked,
    /// Pushing the branch.
    Push,
    /// Asking the user to write the pull-request message.
    Edit,
    /// Submitting the pull request.
    Submit,
    /// Checking out again the ref that was checked out before the run.
    Restore,
    /// Marking the work order as done.
    Finish,
    Done,
    Failed,
}

/// What came of the last action.
pub enum Event {
    Completed,
    BranchExists,
    BranchMissing,
    Edited(String),
    Failed,
}

/// What the driver is to do next. `order` and `commit` are positions in the plan.
#[derive(Debug)]
pub enum Action {
    CheckBranch { order: usize, reference: String },
    WarnExisting { order: usize },
    CreateBranch { order: usize },
    CherryPick { order: usize, commit: usize },
    SimulatePick { order: usize, commit: usize },
    MarkPicked { order: usize, commit: usize },
    Push { order: usize },
    EditPullRequest { order: usize },
    SubmitPullRequest { order: usize, title: String, body: String },
    RestoreCheckout { order: usize },
    FinishOrder { order: usize },
    Finished,
    Abort,
}

/// The mathematical state: phase, positions, and the message of the pull request
/// being submitted.
pub struct Stage {
    pub phase: Phase,
    pub order: nat,
    pub commit: nat,
    pub title: Seq<char>,
    pub body: Seq<char>,
}

pub open spec fn at(phase: Phase, order: nat, commit: nat) -> Stage {
    Stage { phase, order, commit, title: Seq::empty(), body: Seq::empty() }
}

pub open spec fn commit_count(orders: Seq<WorkOrder>, k: nat) -> nat {
    orders[k as int].commits@.len()
}

/// After order `k`: the next order, or the end.
pub open spec fn next_order(orders: Seq<WorkOrder>, k: nat) -> Stage {
    if k + 1 < orders.len() {
        at(Phase::Check, k + 1, 0)
    } else {
        at(Phase::Done, 0, 0)
    }
}

/// After the last cherry-pick of order `k`.
pub open spec fn after_picks(dry_run: bool, k: nat) -> Stage {
    if dry_run {
        at(Phase::Finish, k, 0)
    } else {
        at(Phase::Push, k, 0)
    }
}

pub open spec fn start_picks(orders: Seq<WorkOrder>, dry_run: bool, k: nat) -> Stage {
    if commit_count(orders, k) > 0 {
        at(Phase::Pick, k, 0)
    } else {
        after_picks(dry_run, k)
    }
}

/// The pull request of an order of one commit takes that commit's message: first
/// line as title, all the rest as body.
pub open spec fn single_commit_request(orders: Seq<WorkOrder>, k: nat) -> Stage {
    match orders[k as int].commits@[0].message {
        Some(m) => if m@.len() == 0 {
            at(Phase::Failed, 0, 0)
        } else {
            Stage {
                phase: Phase::Submit,
                order: k,
                commit: 0,
                title: title_of(m@),
                body: message_body_of(m@),
            }
        },
        None => at(Phase::Failed, 0, 0),
    }
}

/// The pull request of an order of several commits takes the edited text.
pub open spec fn edited_request(k: nat, text: Seq<char>) -> Stage {
    let t = edited_text(text);
    if t.len() == 0 {
        at(Phase::Failed, 0, 0)
    } else {
        Stage { phase: Phase::Submit, order: k, commit: 0, title: title_of(t), body: body_of(t) }
    }
}

/// The next stage, given what came of the current stage's action.
pub open spec fn step(orders: Seq<WorkOrder>, dry_run: bool, st: Stage, e: Event) -> Stage {
    let k = st.order;
    let j = st.commit;
    if st.phase == Phase::Done || st.phase == Phase::Failed {
        st
    } else if e is Failed {
        at(Phase::Failed, 0, 0)
    } else {
        match st.phase {
            Phase::Check => match e {
                Event::BranchExists => at(Phase::Skipped, k, 0),
                Event::BranchMissing => if dry_run {
                    start_picks(orders, dry_run, k)
                } else {
                    at(Phase::Create, k, 0)
                },
                _ => at(Phase::Failed, 0, 0),
            },
            Phase::Edit => match e {
                Event::Edited(text) => edited_request(k, text@),
                _ => at(Phase::Failed, 0, 0),
            },
            _ => if !(e is Completed) {
                at(Phase::Failed, 0, 0)
            } else {
                match st.phase {
                    Phase::Skipped => next_order(orders, k),
                    Phase::Create => start_picks(orders, dry_run, k),
                    Phase::Pick => at(Phase::Picked, k, j),
                    Phase::Picked => if j + 1 < commit_count(orders, k) {
                        at(Phase::Pick, k, j + 1)
                    } else {
                        after_picks(dry_run, k)
                    },
                    Phase::Push => if commit_count(orders, k) > 1 {
                        at(Phase::Edit, k, 0)
                    } else {
                        single_commit_request(orders, k)
                    },
                    Phase::Submit => at(Phase::Restore, k, 0),
                    Phase::Restore => at(Phase::Finish, k, 0),
                    _ => next_order(orders, k),
                }
            },
        }
    }
}

/// The first stage of a plan.
pub open spec fn initial(orders: Seq<WorkOrder>) -> Stage {
    if orders.len() > 0 {
        at(Phase::Check, 0, 0)
    } else {
        at(Phase::Done, 0, 0)
    }
}

/// Every work order has a commit.
pub open spec fn orders_wf(orders: Seq<WorkOrder>) -> bool {
    forall|k: int| 0 <= k < orders.len() ==> (#[trigger] orders[k]).commits@.len() > 0
}

/// Positions are in range for the phase.
pub open spec fn stage_wf(orders: Seq<WorkOrder>, st: Stage) -> bool {
    &&& orders_wf(orders)
    &&& (st.phase != Phase::Done && st.phase != Phase::Failed) ==> st.order < orders.len()
    &&& (st.phase == Phase::Pick || st.phase == Phase::Picked) ==> st.commit < commit_count(
        orders,
        st.order,
    )
    &&& (st.phase == Phase::Push || st.phase == Phase::Edit || st.phase == Phase::Submit)
        ==> commit_count(orders, st.order) > 0
}

/// The action for a stage. In a dry run a cherry-pick is simulated.
pub open spec fn action_of(orders: Seq<WorkOrder>, dry_run: bool, st: Stage, a: Action) -> bool {
    let k = st.order;
    let j = st.commit;
    match st.phase {
        Phase::Check => a matches Action::CheckBranch { order, reference } && order == k
            && reference@ == seq!['r', 'e', 'f', 's', '/', 'h', 'e', 'a', 'd', 's', '/']
            + orders[k as int].branch_name@,
        Phase::Skipped => a matches Action::WarnExisting { order } && order == k,
        Phase::Create => a matches Action::CreateBranch { order } && order == k,
        Phase::Pick => if dry_run {
            a matches Action::SimulatePick { order, commit } && order == k && commit == j
        } else {
            a matches Action::CherryPick { order, commit } && order == k && commit == j
        },
        Phase::Picked => a matches Action::MarkPicked { order, commit } && order == k && commit == j,
        Phase::Push => a matches Action::Push { order } && order == k,
        Phase::Edit => a matches Action::EditPullRequest { order } && order == k,
        Phase::Submit => a matches Action::SubmitPullRequest { order, title, body } && order == k
            && title@ == st.title && body@ == st.body,
        Phase::Restore => a matches Action::RestoreCheckout { order } && order == k,
        Phase::Finish => a matches Action::FinishOrder { order } && order == k,
        Phase::Done => a is Finished,
        Phase::Failed => a is Abort,
    }
}

/// Actions that change the repository, the remote, or the files of the work tree.
pub open spec fn mutates(a: Action) -> bool {
    a is CreateBranch || a is CherryPick || a is Push || a is EditPullRequest || a is SubmitPullRequest
        || a is RestoreCheckout
}

/// The phases a dry run can reach.
pub open spec fn dry_phase(p: Phase) -> bool {
    p == Phase::Check || p == Phase::Skipped || p == Phase::Pick || p == Phase::Picked || p
        == Phase::Finish || p == Phase::Done || p == Phase::Failed
}

/// Drives a plan of work orders.
pub struct Orchestrator {
    orders: Vec<WorkOrder>,
    dry_run: bool,
    phase: Phase,
    order: usize,
    commit: usize,
    title: String,
    body: String,
}

impl Orchestrator {
    pub closed spec fn orders(&self) -> Seq<WorkOrder> {
        self.orders@
    }

    pub closed spec fn is_dry_run(&self) -> bool {
        self.dry_run
    }

    pub closed spec fn stage(&self) -> Stage {
        Stage {
            phase: self.phase,
            order: self.order as nat,
            commit: self.commit as nat,
            title: self.title@,
            body: self.body@,
        }
    }

    pub open spec fn wf(&self) -> bool {
        stage_wf(self.orders(), self.stage())
    }

    /// A machine at the first stage of `orders`.
    pub fn new(orders: Vec<WorkOrder>, dry_run: bool) -> (r: Orchestrator)
        requires
            orders_wf(orders@),
        ensures
            r.orders() == orders@,
            r.is_dry_run() == dry_run,
            r.stage() == initial(orders@),
            r.wf(),
    {
        let phase = if orders.len() > 0 {
            Phase::Check
        } else {
            Phase::Done
        };
        let r = Orchestrator {
            orders,
            dry_run,
            phase,
            order: 0,
            commit: 0,
            title: String::new(),
            body: String::new(),
        };
        assert(r.stage() =~= initial(r.orders@));
        r
    }

    /// The work order at `k`.
    pub fn work_order(&self, k: usize) -> (r: &WorkOrder)
        requires
            k < self.orders().len(),
        ensures
            *r == self.orders()[k as int],
    {
        &self.orders[k]
    }

    /// The number of work orders.
    pub fn len(&self) -> (r: usize)
        ensures
            r == self.orders().len(),
    {
        self.orders.len()
    }

    /// Whether the machine has stopped, done or failed.
    pub fn is_finished(&self) -> (r: bool)
        ensures
            r == (self.stage().phase == Phase::Done || self.stage().phase == Phase::Failed),
    {
        self.phase == Phase::Done || self.phase == Phase::Failed
    }

    /// What the driver is to do now.
    pub fn action(&self) -> (r: Action)
        requires
            self.wf(),
        ensures
            action_of(self.orders(), self.is_dry_run(), self.stage(), r),
    {
        let k = self.order;
        let j = self.commit;
        match self.phase {
            Phase::Check => {
                let reference = String::from_str("refs/heads/").concat(
                    self.orders[k].branch_name.as_str(),
                );
                proof {
                    reveal_strlit("refs/heads/");
                    assert("refs/heads/"@ =~= seq!['r', 'e', 'f', 's', '/', 'h', 'e', 'a', 'd', 's', '/']);
                }
                Action::CheckBranch { order: k, reference }
            },
            Phase::Skipped => Action::WarnExisting { order: k },
            Phase::Create => Action::CreateBranch { order: k },
            Phase::Pick => if self.dry_run {
                Action::SimulatePick { order: k, commit: j }
            } else {
                Action::CherryPick { order: k, commit: j }
            },
            Phase::Picked => Action::MarkPicked { order: k, commit: j },
            Phase::Push => Action::Push { order: k },
            Phase::Edit => Action::EditPullRequest { order: k },
            Phase::Submit => Action::SubmitPullRequest {
                order: k,
                title: self.title.clone(),
                body: self.body.clone(),
            },
            Phase::Restore => Action::RestoreCheckout { order: k },
            Phase::Finish => Action::FinishOrder { order: k },
            Phase::Done => Action::Finished,
            Phase::Failed => Action::Abort,
        }
    }

    fn go(&mut self, phase: Phase, order: usize, commit: usize)
        ensures
            final(self).stage() == at(phase, order as nat, commit as nat),
            final(self).orders() == old(self).orders(),
            final(self).is_dry_run() == old(self).is_dry_run(),
    {
        self.phase = phase;
        self.order = order;
        self.commit = commit;
        self.title = String::new();
        self.body = String::new();
        assert(self.stage() =~= at(phase, order as nat, commit as nat));
    }

    fn go_next_order(&mut self, k: usize)
        requires
            k < old(self).orders().len(),
        ensures
            final(self).stage() == next_order(old(self).orders(), k as nat),
            final(self).orders() == old(self).orders(),
            final(self).is_dry_run() == old(self).is_dry_run(),
    {
        let n = self.orders.len();
        if k < n - 1 {
            self.go(Phase::Check, k + 1, 0);
        } else {
            self.go(Phase::Done, 0, 0);
        }
    }

    fn go_after_picks(&mut self, k: usize)
        ensures
            final(self).stage() == after_picks(old(self).is_dry_run(), k as nat),
            final(self).orders() == old(self).orders(),
            final(self).is_dry_run() == old(self).is_dry_run(),
    {
        if self.dry_run {
            self.go(Phase::Finish, k, 0);
        } else {
            self.go(Phase::Push, k, 0);
        }
    }

    fn go_start_picks(&mut self, k: usize)
        requires
            k < old(self).orders().len(),
        ensures
            final(self).stage() == start_picks(old(self).orders(), old(self).is_dry_run(), k as nat),
            final(self).orders() == old(self).orders(),
            final(self).is_dry_run() == old(self).is_dry_run(),
    {
        if self.orders[k].commits.len() > 0 {
            self.go(Phase::Pick, k, 0);
        } else {
            self.go_after_picks(k);
        }
    }

    fn go_submit(&mut self, k: usize, request: Result<PullRequestMetadata, crate::pull_request_metadata::FromStrError>)
        ensures
            request matches Ok(m) ==> final(self).stage() == (Stage {
                phase: Phase::Submit,
                order: k as nat,
                commit: 0,
                title: m.title@,
                body: m.body@,
            }),
            request is Err ==> final(self).stage() == at(Phase::Failed, 0, 0),
            final(self).orders() == old(self).orders(),
            final(self).is_dry_run() == old(self).is_dry_run(),
    {
        match request {
            Ok(m) => {
                self.phase = Phase::Submit;
                self.order = k;
                self.commit = 0;
                self.title = m.title;
                self.body = m.body;
            },
            Err(_) => {
                self.go(Phase::Failed, 0, 0);
            },
        }
    }

    /// Move on, given what came of the current action.
    pub fn advance(&mut self, event: Event)
        requires
            old(self).wf(),
        ensures
            final(self).stage() == step(old(self).orders(), old(self).is_dry_run(), old(self).stage(), event),
            final(self).orders() == old(self).orders(),
            final(self).is_dry_run() == old(self).is_dry_run(),
            final(self).wf(),
    {
        let k = self.order;
        let j = self.commit;
        if self.phase == Phase::Done || self.phase == Phase::Failed {
            return;
        }
        if let Event::Failed = event {
            self.go(Phase::Failed, 0, 0);
            return;
        }
        match self.phase {
            Phase::Check => match event {
                Event::BranchExists => self.go(Phase::Skipped, k, 0),
                Event::BranchMissing => if self.dry_run {
                    self.go_start_picks(k);
                } else {
                    self.go(Phase::Create, k, 0);
                },
                _ => self.go(Phase::Failed, 0, 0),
            },
            Phase::Edit => match event {
                Event::Edited(text) => {
                    let request = PullRequestMetadata::from_edited_text(text.as_str());
                    self.go_submit(k, request);
                },
                _ => self.go(Phase::Failed, 0, 0),
            },
            _ => {
                if let Event::Completed = event {
                    match self.phase {
                        Phase::Skipped => self.go_next_order(k),
                        Phase::Create => self.go_start_picks(k),
                        Phase::Pick => self.go(Phase::Picked, k, j),
                        Phase::Picked => if j < self.orders[k].commits.len() - 1 {
                            self.go(Phase::Pick, k, j + 1);
                        } else {
                            self.go_after_picks(k);
                        },
                        Phase::Push => if self.orders[k].commits.len() > 1 {
                            self.go(Phase::Edit, k, 0);
                        } else {
                            match &self.orders[k].commits[0].message {
                                Some(m) => {
                                    let request = PullRequestMetadata::from_commit_message(m.as_str());
                                    self.go_submit(k, request);
                                },
                                None => self.go(Phase::Failed, 0, 0),
                            }
                        },
                        Phase::Submit => self.go(Phase::Restore, k, 0),
                        Phase::Restore => self.go(Phase::Finish, k, 0),
                        _ => self.go_next_order(k),
                    }
                } else {
                    self.go(Phase::Failed, 0, 0);
                }
            },
        }
    }
}

/// The stage reached from the first stage of `orders` through `events`.
pub open spec fn run(orders: Seq<WorkOrder>, dry_run: bool, events: Seq<Event>) -> Stage
    decreases events.len(),
{
    if events.len() == 0 {
        initial(orders)
    } else {
        step(orders, dry_run, run(orders, dry_run, events.drop_last()), events.last())
    }
}

pub proof fn lemma_dry_phase_of_run(orders: Seq<WorkOrder>, events: Seq<Event>)
    ensures
        dry_phase(run(orders, true, events).phase),
    decreases events.len(),
{
    if events.len() > 0 {
        lemma_dry_phase_of_run(orders, events.drop_last());
    }
}

/// Whatever the events, every stage of a dry run is a dry phase, and its action
/// changes nothing: no branch is created, no commit picked, nothing pushed,
/// proposed, edited or checked out.
pub proof fn dry_run_never_changes_anything(orders: Seq<WorkOrder>, events: Seq<Event>, a: Action)
    requires
        action_of(orders, true, run(orders, true, events), a),
    ensures
        dry_phase(run(orders, true, events).phase),
        !mutates(a),
{
    lemma_dry_phase_of_run(orders, events);
}

} // verus!
