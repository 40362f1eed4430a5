//! The branch plan: one collision-free branch name per issue group.
use vstd::prelude::*;

use crate::branch_name::{
    branch_text, elided, group_branch_text, hyphen_for, hyphenated, is_quote, lemma_elided_keeps,
    lemma_elided_shape, lemma_unquoted_quote_free, no_doubled_hyphen, quote_free, ref_safe,
    sanitized_branch_text, BranchName,
};
use indexmap::IndexMap;

use crate::issue_group::{Commit, IssueGroup, IssueGroupView};
use crate::issue_group_map::{decimal, entries_wf, suffixed, suffixed_text, Entries, IssueGroupMap};
use crate::text::{is_ascii_control, is_white_space};

verus! {

/// The branch planned for one issue group, with the group's commits.
pub struct DisjointBranch {
    pub branch_name: BranchName,
    pub commits: Vec<Commit>,
}

/// The entries of an index map from group keys to planned branches, in the map's
/// order. Keys are compared by `IssueGroup`'s derived `Eq` and `Hash`, which compare
/// kind and text: two keys are equivalent exactly when their views are equal.
pub uninterp spec fn branch_entries(m: IndexMap<IssueGroup, DisjointBranch>) -> Seq<
    (IssueGroupView, DisjointBranch),
>;

/// Relies on `IndexMap::new`: a map with no entries.
#[verifier::external_body]
fn new_branch_index() -> (m: IndexMap<IssueGroup, DisjointBranch>)
    ensures
        branch_entries(m) == Seq::<(IssueGroupView, DisjointBranch)>::empty(),
{
    IndexMap::new()
}

/// Relies on `IndexMap::insert`: a key that no entry has is inserted last.
#[verifier::external_body]
fn insert_branch(m: &mut IndexMap<IssueGroup, DisjointBranch>, key: IssueGroup, value: DisjointBranch)
    requires
        forall|i: int| 0 <= i < branch_entries(*old(m)).len() ==> branch_entries(*old(m))[i].0 != key@,
    ensures
        branch_entries(*final(m)) == branch_entries(*old(m)).push((key@, value)),
{
    m.insert(key, value);
}

/// Relies on `IndexMap::into_iter`: the entries, by value, in the map's order.
#[verifier::external_body]
fn into_branch_entries(m: IndexMap<IssueGroup, DisjointBranch>) -> (r: Vec<(IssueGroup, DisjointBranch)>)
    ensures
        r@.len() == branch_entries(m).len(),
        forall|i: int|
            0 <= i < r@.len() ==> (#[trigger] r@[i]).0@ == branch_entries(m)[i].0 && r@[i].1
                == branch_entries(m)[i].1,
{
    m.into_iter().collect()
}

/// The planned branches, one per issue group, in the groups' order. Keys are
/// distinct and every branch has a commit.
pub struct DisjointBranchMap(IndexMap<IssueGroup, DisjointBranch>);

impl View for DisjointBranchMap {
    type V = Seq<(IssueGroupView, DisjointBranch)>;

    closed spec fn view(&self) -> Seq<(IssueGroupView, DisjointBranch)> {
        branch_entries(self.0)
    }
}

/// Why branch names could not be planned.
#[derive(Debug)]
pub enum FromIssueGroupMapError {
    /// The summary of this commit, the first of its group, is not text.
    InvalidUtf8(String),
    /// The counter for unique branch names ran out.
    SuffixExhausted,
}

pub enum PlanFailure {
    InvalidUtf8(Seq<char>),
    SuffixExhausted,
}

impl FromIssueGroupMapError {
    /// What went wrong, in words.
    pub fn to_string(&self) -> (r: String)
        ensures
            r@ == match self {
                FromIssueGroupMapError::InvalidUtf8(id) => "commit summary contains invalid UTF-8: "@
                    + id@,
                FromIssueGroupMapError::SuffixExhausted => "counter addition overflowed"@,
            },
    {
        match self {
            FromIssueGroupMapError::InvalidUtf8(id) => String::from_str(
                "commit summary contains invalid UTF-8: ",
            ).concat(id.as_str()),
            FromIssueGroupMapError::SuffixExhausted => String::from_str("counter addition overflowed"),
        }
    }

    pub open spec fn failure(&self) -> PlanFailure {
        match self {
            FromIssueGroupMapError::InvalidUtf8(id) => PlanFailure::InvalidUtf8(id@),
            FromIssueGroupMapError::SuffixExhausted => PlanFailure::SuffixExhausted,
        }
    }
}

/// The first branch name made of `base_k` for a counter `k` above `suffix` that is
/// not in `seen`, with `k`; `None` when the counter runs out.
pub open spec fn free_branch_from(base: Seq<char>, seen: Seq<Seq<char>>, suffix: nat) -> Option<
    (Seq<char>, nat),
>
    decreases u32::MAX - suffix,
{
    if suffix >= u32::MAX {
        None
    } else if !seen.contains(branch_text(suffixed(base, suffix + 1))) {
        Some((branch_text(suffixed(base, suffix + 1)), suffix + 1))
    } else {
        free_branch_from(base, seen, suffix + 1)
    }
}

/// `base` when no branch of this run has it, else its first free suffixed form.
pub open spec fn free_branch(base: Seq<char>, seen: Seq<Seq<char>>, suffix: nat) -> Option<
    (Seq<char>, nat),
> {
    if !seen.contains(base) {
        Some((base, suffix))
    } else {
        free_branch_from(base, seen, suffix)
    }
}

/// The names planned so far and the counter.
pub struct PlanState {
    pub names: Seq<Seq<char>>,
    pub suffix: nat,
}

pub open spec fn plan_step(st: PlanState, entry: (IssueGroupView, Seq<Commit>)) -> Result<
    PlanState,
    PlanFailure,
> {
    let first = entry.1[0];
    match first.summary {
        None => Err(PlanFailure::InvalidUtf8(first.id@)),
        Some(summary) => match free_branch(
            group_branch_text(entry.0, summary@),
            st.names,
            st.suffix,
        ) {
            None => Err(PlanFailure::SuffixExhausted),
            Some((name, k)) => Ok(PlanState { names: st.names.push(name), suffix: k }),
        },
    }
}

/// The plan for the first `n` groups.
pub open spec fn plan_prefix(entries: Entries, n: nat) -> Result<PlanState, PlanFailure>
    decreases n,
{
    if n == 0 || n > entries.len() {
        Ok(PlanState { names: Seq::empty(), suffix: 0 })
    } else {
        match plan_prefix(entries, (n - 1) as nat) {
            Ok(st) => plan_step(st, entries[n - 1]),
            Err(e) => Err(e),
        }
    }
}

/// The branch names planned for the groups, in order, or why planning stopped.
pub open spec fn planned_names(entries: Entries) -> Result<Seq<Seq<char>>, PlanFailure> {
    match plan_prefix(entries, entries.len()) {
        Ok(st) => Ok(st.names),
        Err(e) => Err(e),
    }
}

pub open spec fn names_of(v: Seq<BranchName>) -> Seq<Seq<char>> {
    v.map_values(|b: BranchName| b@)
}

fn contains_name(v: &Vec<BranchName>, b: &BranchName) -> (r: bool)
    ensures
        r == names_of(v@).contains(b@),
{
    let mut i: usize = 0;
    while i < v.len()
        invariant
            i <= v@.len(),
            forall|j: int| 0 <= j < i ==> (#[trigger] v@[j])@ != b@,
        decreases v@.len() - i,
    {
        if v[i].same_as(b) {
            assert(names_of(v@)[i as int] == b@);
            return true;
        }
        i = i + 1;
    }
    assert forall|j: int| 0 <= j < names_of(v@).len() implies names_of(v@)[j] != b@ by {
        assert(names_of(v@)[j] == v@[j]@);
    }
    false
}

/// The name to use for `base`, moving the counter on as needed.
fn free_branch_name(base: BranchName, seen: &Vec<BranchName>, suffix: &mut u32) -> (r: Option<
    BranchName,
>)
    ensures
        match free_branch(base@, names_of(seen@), *old(suffix) as nat) {
            Some((name, k)) => r matches Some(b) && b@ == name && *final(suffix) as nat == k,
            None => r is None,
        },
{
    if !contains_name(seen, &base) {
        return Some(base);
    }
    while *suffix < u32::MAX
        invariant
            names_of(seen@).contains(base@),
            free_branch(base@, names_of(seen@), *old(suffix) as nat) == free_branch_from(
                base@,
                names_of(seen@),
                *suffix as nat,
            ),
        decreases u32::MAX - *suffix,
    {
        *suffix = *suffix + 1;
        let candidate = BranchName::new(suffixed_text(base.as_str(), *suffix));
        if !contains_name(seen, &candidate) {
            return Some(candidate);
        }
    }
    None
}

pub proof fn lemma_plan_failure_persists(entries: Entries, m: nat, n: nat)
    requires
        1 <= m <= n <= entries.len(),
        plan_prefix(entries, m) is Err,
    ensures
        plan_prefix(entries, n) == plan_prefix(entries, m),
    decreases n - m,
{
    if n > m {
        lemma_plan_failure_persists(entries, m, (n - 1) as nat);
    }
}

/// No whitespace and no ASCII control character.
pub open spec fn plain_chars(s: Seq<char>) -> bool {
    forall|i: int| 0 <= i < s.len() ==> !is_white_space(#[trigger] s[i]) && !is_ascii_control(s[i])
}

/// The ref-name rules a planned branch keeps: no whitespace, no ASCII control
/// character, no doubled hyphen, no leading or trailing slash.
pub open spec fn valid_branch_name(s: Seq<char>) -> bool {
    &&& plain_chars(s)
    &&& no_doubled_hyphen(s)
    &&& s.len() > 0 ==> s[0] != '/' && s.last() != '/'
}

/// The sanitized text that the name of a group is made from.
pub open spec fn sanitized_group_text(entry: (IssueGroupView, Seq<Commit>)) -> Seq<char> {
    sanitized_branch_text(entry.0, entry.1[0].summary->0@)
}

pub proof fn lemma_decimal_digits(k: nat)
    ensures
        decimal(k).len() > 0,
        forall|i: int|
            0 <= i < decimal(k).len() ==> 48 <= (#[trigger] decimal(k)[i]) as u32 <= 57,
    decreases k,
{
    if k >= 10 {
        lemma_decimal_digits(k / 10);
    }
}

/// The name made of a text that keeps the ref rules and has no quote keeps the
/// ref-name rules, starts with the text's first character or a hyphen, and ends
/// with its last character or a hyphen.
pub proof fn lemma_branch_text_of_plain(x: Seq<char>)
    requires
        plain_chars(x),
        quote_free(x),
    ensures
        branch_text(x) == elided(hyphenated(x)),
        plain_chars(branch_text(x)),
        quote_free(branch_text(x)),
        no_doubled_hyphen(branch_text(x)),
        x.len() > 0 ==> branch_text(x).len() > 0 && branch_text(x)[0] == hyphen_for(x[0])
            && branch_text(x).last() == hyphen_for(x.last()),
        x.len() == 0 ==> branch_text(x).len() == 0,
{
    lemma_unquoted_quote_free(x);
    let h = hyphenated(x);
    let ok = |c: char| !is_white_space(c) && !is_ascii_control(c);
    let nq = |c: char| !is_quote(c);
    assert forall|i: int| 0 <= i < h.len() implies ok(#[trigger] h[i]) && nq(h[i]) by {
        assert(h[i] == hyphen_for(x[i]));
    }
    lemma_elided_keeps(h, ok);
    lemma_elided_keeps(h, nq);
    lemma_elided_shape(h);
    let e = elided(h);
    assert(quote_free(e)) by {
        assert forall|i: int| 0 <= i < e.len() implies !is_quote(#[trigger] e[i]) by {
            assert(nq(e[i]));
        }
    }
    assert(plain_chars(e)) by {
        assert forall|i: int| 0 <= i < e.len() implies !is_white_space(#[trigger] e[i])
            && !is_ascii_control(e[i]) by {
            assert(ok(e[i]));
        }
    }
}

/// Every name the plan can pick for a group whose sanitized text keeps the ref
/// rules and has no quote keeps the ref-name rules: the text's own name, and each
/// suffixed form of it.
pub proof fn lemma_candidate_names(x: Seq<char>, k: nat)
    requires
        ref_safe(x),
        quote_free(x),
    ensures
        valid_branch_name(branch_text(x)),
        valid_branch_name(branch_text(suffixed(branch_text(x), k))),
{
    assert(plain_chars(x));
    lemma_branch_text_of_plain(x);
    let g = branch_text(x);
    lemma_decimal_digits(k);
    let y = suffixed(g, k);
    let d = decimal(k);
    assert(y == g + seq!['_'] + d);
    assert(plain_chars(y) && quote_free(y)) by {
        assert forall|i: int| 0 <= i < y.len() implies !is_white_space(#[trigger] y[i])
            && !is_ascii_control(y[i]) && !is_quote(y[i]) by {
            if i < g.len() {
                assert(y[i] == g[i]);
            } else if i == g.len() {
                assert(y[i] == '_');
            } else {
                assert(y[i] == d[i - g.len() - 1]);
            }
        }
    }
    lemma_branch_text_of_plain(y);
    assert(y.last() == d.last());
    if g.len() > 0 {
        assert(y[0] == g[0]);
    } else {
        assert(y[0] == '_');
    }
}

pub proof fn lemma_free_branch_from(base: Seq<char>, seen: Seq<Seq<char>>, suffix: nat)
    ensures
        free_branch_from(base, seen, suffix) matches Some((name, k)) ==> !seen.contains(name)
            && name == branch_text(suffixed(base, k)) && k > suffix,
    decreases u32::MAX - suffix,
{
    if suffix < u32::MAX && seen.contains(branch_text(suffixed(base, suffix + 1))) {
        lemma_free_branch_from(base, seen, suffix + 1);
    }
}

/// What holds of the plan of the first `m` groups: one name per group, pairwise
/// distinct, each keeping the ref-name rules as [`lemma_candidate_names`] says.
pub proof fn lemma_plan_prefix(entries: Entries, m: nat)
    requires
        m <= entries.len(),
        entries_wf(entries),
        forall|j: int|
            0 <= j < m ==> ref_safe(#[trigger] sanitized_group_text(entries[j])) && quote_free(
                sanitized_group_text(entries[j]),
            ),
    ensures
        plan_prefix(entries, m) matches Ok(st) ==> {
            &&& st.names.len() == m
            &&& forall|i: int, j: int|
                0 <= i < m && 0 <= j < m && i != j ==> #[trigger] st.names[i] != #[trigger] st.names[j]
            &&& forall|i: int| 0 <= i < m ==> valid_branch_name(#[trigger] st.names[i])
        },
    decreases m,
{
    if m > 0 {
        lemma_plan_prefix(entries, (m - 1) as nat);
        match plan_prefix(entries, (m - 1) as nat) {
            Ok(st) => {
                let e = entries[m - 1];
                assert(e.1.len() > 0);
                match e.1[0].summary {
                    Some(summary) => {
                        let x = sanitized_group_text(e);
                        assert(ref_safe(x) && quote_free(x));
                        let base = group_branch_text(e.0, summary@);
                        assert(base == branch_text(x));
                        lemma_free_branch_from(base, st.names, st.suffix);
                        match free_branch(base, st.names, st.suffix) {
                            Some((name, k)) => {
                                lemma_candidate_names(x, k);
                                let names = st.names.push(name);
                                assert(names[m - 1] == name);
                                assert forall|i: int, j: int|
                                    0 <= i < m && 0 <= j < m && i != j implies #[trigger] names[i]
                                    != #[trigger] names[j] by {
                                    if i == m - 1 {
                                        assert(names[j] == st.names[j]);
                                    } else if j == m - 1 {
                                        assert(names[i] == st.names[i]);
                                    } else {
                                        assert(names[i] == st.names[i] && names[j] == st.names[j]);
                                    }
                                }
                                assert forall|i: int| 0 <= i < m implies valid_branch_name(#[trigger] names[i]) by {
                                    if i < m - 1 {
                                        assert(names[i] == st.names[i]);
                                    }
                                }
                            },
                            None => {},
                        }
                    },
                    None => {},
                }
            },
            Err(_) => {},
        }
    }
}

impl DisjointBranchMap {
    /// Keys are distinct and every branch has a commit.
    pub open spec fn wf(&self) -> bool {
        &&& forall|i: int, j: int|
            0 <= i < self@.len() && 0 <= j < self@.len() && i != j ==> #[trigger] self@[i].0
                != #[trigger] self@[j].0
        &&& forall|i: int| 0 <= i < self@.len() ==> (#[trigger] self@[i]).1.commits@.len() > 0
    }

    /// The branches are those of `entries`, in order, named `names`.
    pub open spec fn planned(&self, entries: Entries, names: Seq<Seq<char>>) -> bool {
        &&& self@.len() == entries.len()
        &&& names.len() == entries.len()
        &&& forall|i: int|
            0 <= i < entries.len() ==> (#[trigger] self@[i]).0 == entries[i].0
                && self@[i].1.commits@ == entries[i].1 && self@[i].1.branch_name@ == names[i]
    }

    /// The planned branches, by value, in order.
    pub fn into_entries(self) -> (r: Vec<(IssueGroup, DisjointBranch)>)
        ensures
            r@.len() == self@.len(),
            forall|i: int|
                0 <= i < r@.len() ==> (#[trigger] r@[i]).0@ == self@[i].0 && r@[i].1 == self@[i].1,
    {
        into_branch_entries(self.0)
    }

    /// Plan a branch name for each group, in order, that no earlier group of this
    /// run has. Existing branches of the repository are not consulted.
    pub fn try_from(commits_by_issue_group: IssueGroupMap) -> (r: Result<
        DisjointBranchMap,
        FromIssueGroupMapError,
    >)
        requires
            commits_by_issue_group.wf(),
        ensures
            match planned_names(commits_by_issue_group@) {
                Ok(names) => r matches Ok(d) && d.planned(commits_by_issue_group@, names) && d.wf(),
                Err(e) => r matches Err(x) && x.failure() == e,
            },
            r matches Ok(d) ==> {
                &&& forall|i: int, j: int|
                    0 <= i < d@.len() && 0 <= j < d@.len() && i != j ==> (#[trigger] d@[i]).1.branch_name@
                        != (#[trigger] d@[j]).1.branch_name@
                &&& forall|i: int| 0 <= i < d@.len() ==> valid_branch_name((#[trigger] d@[i]).1.branch_name@)
            },
    {
        let ghost entries = commits_by_issue_group@;
        let mut rest = commits_by_issue_group.into_entries();
        let n = rest.len();
        let mut planned: Vec<(IssueGroup, DisjointBranch)> = Vec::new();
        let mut seen: Vec<BranchName> = Vec::new();
        let mut suffix: u32 = 0;
        let mut failure: Option<FromIssueGroupMapError> = None;
        let mut i: usize = 0;
        proof {
            assert(names_of(seen@) =~= Seq::<Seq<char>>::empty());
        }
        while i < n && failure.is_none()
            invariant
                n == entries.len(),
                i <= n,
                entries_wf(entries),
                failure matches Some(e) ==> planned_names(entries) == Err::<Seq<Seq<char>>, PlanFailure>(e.failure()),
                failure is None ==> rest@.len() == n - i,
                failure is None ==> forall|j: int|
                    0 <= j < rest@.len() ==> (#[trigger] rest@[j]).0@ == entries[i + j].0
                        && rest@[j].1@ == entries[i + j].1,
                failure is None ==> plan_prefix(entries, i as nat) == Ok::<PlanState, PlanFailure>(
                    PlanState { names: names_of(seen@), suffix: suffix as nat },
                ),
                failure is None ==> planned@.len() == i,
                failure is None ==> seen@.len() == i,
                failure is None ==> forall|j: int|
                    0 <= j < i ==> ref_safe(#[trigger] sanitized_group_text(entries[j])) && quote_free(
                        sanitized_group_text(entries[j]),
                    ),
                failure is None ==> forall|j: int|
                    0 <= j < i ==> (#[trigger] planned@[j]).0@ == entries[j].0
                        && planned@[j].1.commits@ == entries[j].1
                        && planned@[j].1.branch_name@ == names_of(seen@)[j],
            decreases n - i,
        {
            let ghost before_rest = rest@;
            let (key, commits) = rest.remove(0);
            assert(key@ == entries[i as int].0 && commits@ == entries[i as int].1) by {
                assert(before_rest[0].0@ == entries[i + 0].0);
            }
            let ghost st = PlanState { names: names_of(seen@), suffix: suffix as nat };
            assert(plan_prefix(entries, (i + 1) as nat) == plan_step(st, entries[i as int]));
            assert(commits@.len() > 0);
            let first = &commits[0];
            match &first.summary {
                None => {
                    let e = FromIssueGroupMapError::InvalidUtf8(first.id.clone());
                    proof {
                        lemma_plan_failure_persists(entries, (i + 1) as nat, n as nat);
                    }
                    failure = Some(e);
                },
                Some(summary) => {
                    let base = BranchName::from_issue_group(&key, summary.as_str());
                    assert(ref_safe(sanitized_group_text(entries[i as int])));
                    assert(quote_free(sanitized_group_text(entries[i as int])));
                    match free_branch_name(base, &seen, &mut suffix) {
                        None => {
                            proof {
                                lemma_plan_failure_persists(entries, (i + 1) as nat, n as nat);
                            }
                            failure = Some(FromIssueGroupMapError::SuffixExhausted);
                        },
                        Some(name) => {
                            let ghost old_seen = seen@;
                            seen.push(name.clone_name());
                            planned.push((key, DisjointBranch { branch_name: name, commits }));
                            proof {
                                assert(names_of(seen@) =~= names_of(old_seen).push(name@));
                                assert forall|j: int| 0 <= j < rest@.len() implies (#[trigger] rest@[j]).0@
                                    == entries[i + 1 + j].0 && rest@[j].1@ == entries[i + 1 + j].1 by {
                                    assert(rest@[j] == before_rest[j + 1]);
                                }
                                assert forall|j: int| 0 <= j < i + 1 implies (#[trigger] planned@[j]).0@ == entries[j].0
                                    && planned@[j].1.commits@ == entries[j].1
                                    && planned@[j].1.branch_name@ == names_of(seen@)[j] by {
                                    if j < i {
                                        assert(names_of(seen@)[j] == names_of(old_seen)[j]);
                                    }
                                }
                            }
                        },
                    }
                },
            }
            i = i + 1;
        }
        match failure {
            Some(e) => Err(e),
            None => {
                proof {
                    lemma_plan_prefix(entries, n as nat);
                }
                let ghost names = names_of(seen@);
                let mut map = new_branch_index();
                let mut j: usize = 0;
                while j < n
                    invariant
                        n == entries.len(),
                        j <= n,
                        entries_wf(entries),
                        planned@.len() == n - j,
                        forall|k: int|
                            0 <= k < planned@.len() ==> (#[trigger] planned@[k]).0@ == entries[j + k].0
                                && planned@[k].1.commits@ == entries[j + k].1
                                && planned@[k].1.branch_name@ == names[j + k],
                        branch_entries(map).len() == j,
                        forall|k: int|
                            0 <= k < j ==> (#[trigger] branch_entries(map)[k]).0 == entries[k].0
                                && branch_entries(map)[k].1.commits@ == entries[k].1
                                && branch_entries(map)[k].1.branch_name@ == names[k],
                    decreases n - j,
                {
                    let ghost before = planned@;
                    let (key, branch) = planned.remove(0);
                    assert(key@ == entries[j as int].0 && branch.commits@ == entries[j as int].1
                        && branch.branch_name@ == names[j as int]) by {
                        assert(before[0].0@ == entries[j + 0].0);
                    }
                    assert forall|k: int| 0 <= k < branch_entries(map).len() implies branch_entries(map)[k].0
                        != key@ by {
                        assert(branch_entries(map)[k].0 == entries[k].0);
                    }
                    insert_branch(&mut map, key, branch);
                    assert forall|k: int| 0 <= k < planned@.len() implies (#[trigger] planned@[k]).0@
                        == entries[j + 1 + k].0 && planned@[k].1.commits@ == entries[j + 1 + k].1
                        && planned@[k].1.branch_name@ == names[j + 1 + k] by {
                        assert(planned@[k] == before[k + 1]);
                    }
                    j = j + 1;
                }
                Ok(DisjointBranchMap(map))
            },
        }
    }
}

} // verus!
