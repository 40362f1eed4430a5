//! Commits bucketed into issue groups, in the order the groups were first met.
use vstd::prelude::*;

use indexmap::IndexMap;

use crate::cli::{
    CommitGrouping, CommitsToConsider, OverlayCommitsIntoOnePullRequest, PromptUserToChooseCommits,
};
use crate::issue::{issue_of_message, Issue, IssueView};
use crate::issue_group::{Commit, GitCommitSummary, IssueGroup, IssueGroupView};
use crate::text::{contains_text, texts};

verus! {

#[verifier::external_type_specification]
#[verifier::external_body]
#[verifier::reject_recursive_types(K)]
#[verifier::reject_recursive_types(V)]
#[verifier::reject_recursive_types(S)]
pub struct ExIndexMap<K, V, S>(IndexMap<K, V, S>);

pub type Entries = Seq<(IssueGroupView, Seq<Commit>)>;

/// The entries of an index map from group keys to commits, in the map's order.
/// Keys are compared by `IssueGroup`'s derived `Eq` and `Hash`, which compare kind
/// and text: two keys are equivalent exactly when their views are equal.
pub uninterp spec fn group_entries(m: IndexMap<IssueGroup, Vec<Commit>>) -> Seq<
    (IssueGroupView, Seq<Commit>),
>;

pub open spec fn keys_of(entries: Entries) -> Seq<IssueGroupView> {
    entries.map_values(|e: (IssueGroupView, Seq<Commit>)| e.0)
}

/// The first index from `i` on whose key is `key`, or the length when there is none.
pub open spec fn position_from(keys: Seq<IssueGroupView>, key: IssueGroupView, i: int) -> int
    decreases keys.len() - i,
{
    if i < 0 || i >= keys.len() {
        keys.len() as int
    } else if keys[i] == key {
        i
    } else {
        position_from(keys, key, i + 1)
    }
}

/// Where `key` stands among the entries, or their number when it is absent.
pub open spec fn key_position(entries: Entries, key: IssueGroupView) -> int {
    position_from(keys_of(entries), key, 0)
}

/// What inserting `key` with `value` does to the entries: an existing key keeps
/// its place and takes the new value, a new key goes last.
pub open spec fn entries_after_insert(
    entries: Entries,
    key: IssueGroupView,
    value: Seq<Commit>,
) -> Entries {
    let i = key_position(entries, key);
    if i < entries.len() {
        entries.update(i, (entries[i].0, value))
    } else {
        entries.push((key, value))
    }
}

/// Relies on `IndexMap::new`: a map with no entries.
#[verifier::external_body]
fn new_index() -> (m: IndexMap<IssueGroup, Vec<Commit>>)
    ensures
        group_entries(m) == Seq::<(IssueGroupView, Seq<Commit>)>::empty(),
{
    IndexMap::new()
}

/// Relies on `IndexMap::insert`: an equivalent key keeps its place and its value is
/// replaced, the old value being returned; a new key is inserted last.
#[verifier::external_body]
fn insert_entry(m: &mut IndexMap<IssueGroup, Vec<Commit>>, key: IssueGroup, value: Vec<Commit>) -> (r:
    Option<Vec<Commit>>)
    ensures
        group_entries(*final(m)) == entries_after_insert(group_entries(*old(m)), key@, value@),
        key_position(group_entries(*old(m)), key@) < group_entries(*old(m)).len() ==> (r matches Some(
            v,
        ) && v@ == group_entries(*old(m))[key_position(group_entries(*old(m)), key@)].1),
        key_position(group_entries(*old(m)), key@) >= group_entries(*old(m)).len() ==> r is None,
{
    m.insert(key, value)
}

/// Relies on `IndexMap::get_index`: the key and value at position `i`.
#[verifier::external_body]
fn entry_at(m: &IndexMap<IssueGroup, Vec<Commit>>, i: usize) -> (r: Option<(&IssueGroup, &Vec<Commit>)>)
    ensures
        r is Some <==> i < group_entries(*m).len(),
        r is Some ==> r->Some_0.0@ == group_entries(*m)[i as int].0,
        r is Some ==> r->Some_0.1@ == group_entries(*m)[i as int].1,
{
    m.get_index(i)
}

/// Relies on `IndexMap::len`: the number of entries.
#[verifier::external_body]
fn entry_count(m: &IndexMap<IssueGroup, Vec<Commit>>) -> (r: usize)
    ensures
        r == group_entries(*m).len(),
{
    m.len()
}

/// Relies on `IndexMap::into_iter`: the entries, by value, in the map's order.
#[verifier::external_body]
fn into_entries(m: IndexMap<IssueGroup, Vec<Commit>>) -> (r: Vec<(IssueGroup, Vec<Commit>)>)
    ensures
        r@.len() == group_entries(m).len(),
        forall|i: int|
            0 <= i < r@.len() ==> (#[trigger] r@[i]).0@ == group_entries(m)[i].0 && r@[i].1@
                == group_entries(m)[i].1,
{
    m.into_iter().collect()
}

pub proof fn lemma_position_from(keys: Seq<IssueGroupView>, key: IssueGroupView, i: int)
    requires
        0 <= i <= keys.len(),
    ensures
        i <= position_from(keys, key, i) <= keys.len(),
        position_from(keys, key, i) < keys.len() ==> keys[position_from(keys, key, i)] == key,
        forall|j: int| i <= j < position_from(keys, key, i) ==> keys[j] != key,
    decreases keys.len() - i,
{
    if i < keys.len() && keys[i] != key {
        lemma_position_from(keys, key, i + 1);
    }
}

pub proof fn lemma_key_position(entries: Entries, key: IssueGroupView)
    ensures
        0 <= key_position(entries, key) <= entries.len(),
        key_position(entries, key) < entries.len() ==> entries[key_position(entries, key)].0 == key,
        key_position(entries, key) == entries.len() ==> forall|j: int|
            0 <= j < entries.len() ==> entries[j].0 != key,
        forall|j: int| 0 <= j < key_position(entries, key) ==> entries[j].0 != key,
{
    lemma_position_from(keys_of(entries), key, 0);
    let p = key_position(entries, key);
    assert forall|j: int| 0 <= j < p implies entries[j].0 != key by {
        assert(keys_of(entries)[j] == entries[j].0);
    }
}

/// Keys are pairwise distinct and every group holds at least one commit.
pub open spec fn entries_wf(entries: Entries) -> bool {
    &&& forall|i: int, j: int|
        0 <= i < entries.len() && 0 <= j < entries.len() && i != j ==> #[trigger] entries[i].0
            != #[trigger] entries[j].0
    &&& forall|i: int| 0 <= i < entries.len() ==> (#[trigger] entries[i]).1.len() > 0
}

/// Add `c` to the group `key`, opening the group last when it is new.
pub open spec fn add_commit(entries: Entries, key: IssueGroupView, c: Commit) -> Entries {
    let i = key_position(entries, key);
    if i < entries.len() {
        entries.update(i, (entries[i].0, entries[i].1.push(c)))
    } else {
        entries.push((key, seq![c]))
    }
}

pub proof fn lemma_add_commit_wf(entries: Entries, key: IssueGroupView, c: Commit)
    requires
        entries_wf(entries),
    ensures
        entries_wf(add_commit(entries, key, c)),
{
    lemma_key_position(entries, key);
}

/// The issue that a commit's message refers to, when its message is text.
pub open spec fn commit_issue(c: Commit) -> Option<IssueView> {
    match c.message {
        Some(m) => issue_of_message(m@),
        None => None,
    }
}

/// `base` followed by `_` and the decimal digits of `k`.
pub open spec fn suffixed(base: Seq<char>, k: nat) -> Seq<char> {
    base + seq!['_'] + decimal(k)
}

/// The decimal digits of `n`, most significant first, without leading zeros.
pub open spec fn decimal(n: nat) -> Seq<char>
    decreases n,
{
    if n < 10 {
        seq![digit_char(n)]
    } else {
        decimal(n / 10).push(digit_char(n % 10))
    }
}

pub open spec fn digit_char(d: nat) -> char {
    if d < 10 {
        ((d + 48) as u32) as char
    } else {
        '0'
    }
}

/// The first suffixed form of `base` whose counter is above `suffix` and that is
/// not in `seen`, with the counter it used; `None` when the counter runs out.
pub open spec fn free_name_from(base: Seq<char>, seen: Seq<Seq<char>>, suffix: nat) -> Option<
    (Seq<char>, nat),
>
    decreases u32::MAX - suffix,
{
    if suffix >= u32::MAX {
        None
    } else if !seen.contains(suffixed(base, suffix + 1)) {
        Some((suffixed(base, suffix + 1), suffix + 1))
    } else {
        free_name_from(base, seen, suffix + 1)
    }
}

/// `base` itself when it is not in `seen`, else its first free suffixed form.
pub open spec fn free_name(base: Seq<char>, seen: Seq<Seq<char>>, suffix: nat) -> Option<
    (Seq<char>, nat),
> {
    if !seen.contains(base) {
        Some((base, suffix))
    } else {
        free_name_from(base, seen, suffix)
    }
}

/// Where a classification stands after a prefix of the commits.
pub struct ClassifyState {
    pub entries: Entries,
    pub seen: Seq<Seq<char>>,
    pub suffix: nat,
}

/// Why a classification stopped.
pub enum ClassifyFailure {
    InvalidSummary(Seq<char>),
    SuffixExhausted,
}

/// A commit that has no issue trailer, or whose issue is ignored, gets a group of
/// its own only when every commit is considered or grouping is individual.
pub open spec fn keeps_alone(consider: CommitsToConsider, grouping: CommitGrouping) -> bool {
    grouping == CommitGrouping::Individual || consider == CommitsToConsider::All
}

/// The group key of one commit, given the names already used and the counter; with
/// the names and counter after it. `None` leaves the commit out.
pub open spec fn commit_key(
    c: Commit,
    seen: Seq<Seq<char>>,
    suffix: nat,
    consider: CommitsToConsider,
    grouping: CommitGrouping,
) -> Result<(Option<IssueGroupView>, Seq<Seq<char>>, nat), ClassifyFailure> {
    if grouping == CommitGrouping::ByIssue && commit_issue(c) is Some {
        Ok((Some(IssueGroupView::Issue(commit_issue(c)->0)), seen, suffix))
    } else if keeps_alone(consider, grouping) {
        match c.summary {
            None => Err(ClassifyFailure::InvalidSummary(c.id@)),
            Some(s) => match free_name(s@, seen, suffix) {
                None => Err(ClassifyFailure::SuffixExhausted),
                Some((name, k)) => Ok((Some(IssueGroupView::Commit(name)), seen.push(name), k)),
            },
        }
    } else {
        Ok((None, seen, suffix))
    }
}

pub open spec fn classify_step(
    st: ClassifyState,
    c: Commit,
    consider: CommitsToConsider,
    grouping: CommitGrouping,
) -> Result<ClassifyState, ClassifyFailure> {
    match commit_key(c, st.seen, st.suffix, consider, grouping) {
        Err(e) => Err(e),
        Ok((key, seen, suffix)) => Ok(
            ClassifyState {
                entries: match key {
                    Some(k) => add_commit(st.entries, k, c),
                    None => st.entries,
                },
                seen,
                suffix,
            },
        ),
    }
}

/// The classification of the first `n` commits.
pub open spec fn classify_prefix(
    commits: Seq<Commit>,
    n: nat,
    consider: CommitsToConsider,
    grouping: CommitGrouping,
) -> Result<ClassifyState, ClassifyFailure>
    decreases n,
{
    if n == 0 || n > commits.len() {
        Ok(ClassifyState { entries: Seq::empty(), seen: Seq::empty(), suffix: 0 })
    } else {
        match classify_prefix(commits, (n - 1) as nat, consider, grouping) {
            Ok(st) => classify_step(st, commits[n - 1], consider, grouping),
            Err(e) => Err(e),
        }
    }
}

/// The groups of `commits`, or why they cannot be formed.
pub open spec fn classified(
    commits: Seq<Commit>,
    consider: CommitsToConsider,
    grouping: CommitGrouping,
) -> Result<Entries, ClassifyFailure> {
    match classify_prefix(commits, commits.len(), consider, grouping) {
        Ok(st) => Ok(st.entries),
        Err(e) => Err(e),
    }
}

pub proof fn lemma_failure_persists(
    commits: Seq<Commit>,
    m: nat,
    n: nat,
    consider: CommitsToConsider,
    grouping: CommitGrouping,
)
    requires
        1 <= m <= n <= commits.len(),
        classify_prefix(commits, m, consider, grouping) is Err,
    ensures
        classify_prefix(commits, n, consider, grouping) == classify_prefix(commits, m, consider, grouping),
    decreases n - m,
{
    if n > m {
        lemma_failure_persists(commits, m, (n - 1) as nat, consider, grouping);
    }
}

/// Commits bucketed into issue groups. Keys are unique; every group is non-empty;
/// groups keep the order in which they were first met.
pub struct IssueGroupMap(IndexMap<IssueGroup, Vec<Commit>>);

impl View for IssueGroupMap {
    type V = Entries;

    closed spec fn view(&self) -> Entries {
        group_entries(self.0)
    }
}

/// Why commits could not be grouped.
#[derive(Debug)]
pub enum FromCommitsError {
    /// The summary of this commit is not text, and a group key had to be made of it.
    InvalidSummary(String),
    /// The counter for unique group names ran out.
    SuffixExhausted,
}

impl FromCommitsError {
    /// What went wrong, in words.
    pub fn to_string(&self) -> (r: String)
        ensures
            r@ == match self {
                FromCommitsError::InvalidSummary(id) => "summary for commit "@ + id@
                    + " is not valid UTF-8"@,
                FromCommitsError::SuffixExhausted => "counter addition overflowed"@,
            },
    {
        match self {
            FromCommitsError::InvalidSummary(id) => String::from_str("summary for commit ").concat(
                id.as_str(),
            ).concat(" is not valid UTF-8"),
            FromCommitsError::SuffixExhausted => String::from_str("counter addition overflowed"),
        }
    }

    pub open spec fn failure(&self) -> ClassifyFailure {
        match self {
            FromCommitsError::InvalidSummary(id) => ClassifyFailure::InvalidSummary(id@),
            FromCommitsError::SuffixExhausted => ClassifyFailure::SuffixExhausted,
        }
    }
}

/// The digit `d` as text.
fn digit_text(d: u32) -> (r: &'static str)
    requires
        d < 10,
    ensures
        r@ == seq![digit_char(d as nat)],
{
    let digits: &'static str = "0123456789";
    proof {
        reveal_strlit("0123456789");
    }
    let r = digits.substring_char(d as usize, (d + 1) as usize);
    assert(r@ =~= seq![digit_char(d as nat)]);
    r
}

/// The decimal digits of `n`.
fn decimal_text(n: u32) -> (r: String)
    ensures
        r@ == decimal(n as nat),
    decreases n,
{
    if n < 10 {
        String::from_str(digit_text(n))
    } else {
        let mut r = decimal_text(n / 10);
        r.append(digit_text(n % 10));
        r
    }
}

/// The text `base_k`: `base`, an underscore and the digits of `k`.
pub fn suffixed_text(base: &str, k: u32) -> (r: String)
    ensures
        r@ == suffixed(base@, k as nat),
{
    let d = decimal_text(k);
    let r = String::from_str(base).concat("_").concat(d.as_str());
    proof {
        reveal_strlit("_");
    }
    r
}

/// The first free name for `base` among `seen`, moving the counter on as needed.
fn free_summary_name(base: &String, seen: &Vec<String>, suffix: &mut u32) -> (r: Option<String>)
    ensures
        match free_name(base@, texts(seen@), *old(suffix) as nat) {
            Some((name, k)) => r matches Some(t) && t@ == name && *final(suffix) as nat == k,
            None => r is None,
        },
{
    if !contains_text(seen, base.as_str()) {
        return Some(base.clone());
    }
    while *suffix < u32::MAX
        invariant
            texts(seen@).contains(base@),
            free_name(base@, texts(seen@), *old(suffix) as nat) == free_name_from(
                base@,
                texts(seen@),
                *suffix as nat,
            ),
        decreases u32::MAX - *suffix,
    {
        *suffix = *suffix + 1;
        let candidate = suffixed_text(base.as_str(), *suffix);
        if !contains_text(seen, candidate.as_str()) {
            return Some(candidate);
        }
    }
    None
}

/// Put `c` into the group `key` of the map.
fn add_to_group(m: &mut IndexMap<IssueGroup, Vec<Commit>>, key: IssueGroup, c: Commit)
    ensures
        group_entries(*final(m)) == add_commit(group_entries(*old(m)), key@, c),
{
    let ghost before = group_entries(*m);
    proof {
        lemma_key_position(before, key@);
    }
    let again = key.duplicate();
    let previous = insert_entry(m, key, Vec::new());
    let mut commits = match previous {
        Some(v) => v,
        None => Vec::new(),
    };
    commits.push(c);
    let ghost middle = group_entries(*m);
    proof {
        let i = key_position(before, key@);
        if i < before.len() {
            assert(keys_of(middle) =~= keys_of(before));
        } else {
            assert(keys_of(middle) =~= keys_of(before).push(key@));
            lemma_key_position(middle, key@);
            assert(middle[before.len() as int].0 == key@);
        }
        lemma_key_position(middle, key@);
    }
    let _ = insert_entry(m, again, commits);
    assert(group_entries(*m) =~= add_commit(before, key@, c));
}

/// The group key of one commit, or `None` when it is left out; moves the
/// name-uniqueness state on.
fn classify_commit(
    c: &Commit,
    consider: CommitsToConsider,
    grouping: CommitGrouping,
    seen: &mut Vec<String>,
    suffix: &mut u32,
) -> (r: Result<Option<IssueGroup>, FromCommitsError>)
    ensures
        match commit_key(*c, texts(old(seen)@), *old(suffix) as nat, consider, grouping) {
            Ok((key, names, k)) => r matches Ok(x) && texts(final(seen)@) == names && *final(suffix)
                as nat == k && match x {
                Some(g) => key == Some(g@),
                None => key is None,
            },
            Err(e) => r matches Err(x) && x.failure() == e,
        },
{
    let issue: Option<Issue> = match &c.message {
        Some(m) => Issue::parse_from_commit_message(m.as_str()),
        None => None,
    };
    if grouping == CommitGrouping::ByIssue {
        match issue {
            Some(i) => {
                return Ok(Some(IssueGroup::Issue(i)));
            },
            None => {},
        }
    }
    if grouping == CommitGrouping::Individual || consider == CommitsToConsider::All {
        match &c.summary {
            None => Err(FromCommitsError::InvalidSummary(c.id.clone())),
            Some(s) => match free_summary_name(s, seen, suffix) {
                None => Err(FromCommitsError::SuffixExhausted),
                Some(name) => {
                    let key = IssueGroup::Commit(GitCommitSummary(name.clone()));
                    seen.push(name);
                    proof {
                        assert(texts(seen@) =~= texts(old(seen)@).push(key@->Commit_0));
                    }
                    Ok(Some(key))
                },
            },
        }
    } else {
        Ok(None)
    }
}

impl IssueGroupMap {
    pub open spec fn wf(&self) -> bool {
        entries_wf(self@)
    }

    /// Group `commits`, in order, by the issue each refers to; see [`classified`].
    pub fn try_from_commits(
        commits: Vec<Commit>,
        commits_to_consider: CommitsToConsider,
        commit_grouping: CommitGrouping,
    ) -> (r: Result<IssueGroupMap, FromCommitsError>)
        ensures
            match classified(commits@, commits_to_consider, commit_grouping) {
                Ok(entries) => r matches Ok(m) && m@ == entries && m.wf(),
                Err(e) => r matches Err(x) && x.failure() == e,
            },
    {
        let ghost all = commits@;
        let n = commits.len();
        let mut rest = commits;
        let mut map = new_index();
        let mut seen: Vec<String> = Vec::new();
        let mut suffix: u32 = 0;
        let mut i: usize = 0;
        proof {
            assert(texts(seen@) =~= Seq::<Seq<char>>::empty());
        }
        let mut failure: Option<FromCommitsError> = None;
        while i < n && failure.is_none()
            invariant
                n == all.len(),
                i <= n,
                failure matches Some(e) ==> classified(all, commits_to_consider, commit_grouping)
                    == Err::<Entries, ClassifyFailure>(e.failure()),
                failure is None ==> rest@ == all.subrange(i as int, n as int),
                failure is None ==> 
                classify_prefix(all, i as nat, commits_to_consider, commit_grouping) == Ok::<
                    ClassifyState,
                    ClassifyFailure,
                >(ClassifyState { entries: group_entries(map), seen: texts(seen@), suffix: suffix as nat }),
                failure is None ==> entries_wf(group_entries(map)),
            decreases n - i,
        {
            let c = rest.remove(0);
            assert(c == all[i as int]);
            let ghost before = group_entries(map);
            let ghost st = ClassifyState { entries: before, seen: texts(seen@), suffix: suffix as nat };
            assert(classify_prefix(all, (i + 1) as nat, commits_to_consider, commit_grouping)
                == classify_step(st, c, commits_to_consider, commit_grouping));
            let outcome = classify_commit(&c, commits_to_consider, commit_grouping, &mut seen, &mut suffix);
            match outcome {
                Err(e) => {
                    proof {
                        lemma_failure_persists(all, (i + 1) as nat, n as nat, commits_to_consider, commit_grouping);
                    }
                    failure = Some(e);
                },
                Ok(Some(key)) => {
                    proof {
                        lemma_add_commit_wf(before, key@, c);
                    }
                    add_to_group(&mut map, key, c);
                },
                Ok(None) => {},
            }
            proof {
                assert(rest@ =~= all.subrange(i + 1, n as int));
            }
            i = i + 1;
        }
        match failure {
            Some(e) => Err(e),
            None => Ok(IssueGroupMap(map)),
        }
    }
}

pub open spec fn group_views(v: Seq<IssueGroup>) -> Seq<IssueGroupView> {
    v.map_values(|g: IssueGroup| g@)
}

/// The entries whose key is in `chosen`, in their order.
pub open spec fn kept(entries: Entries, chosen: Seq<IssueGroupView>) -> Entries
    decreases entries.len(),
{
    if entries.len() == 0 {
        entries
    } else {
        let rest = kept(entries.drop_last(), chosen);
        if chosen.contains(entries.last().0) {
            rest.push(entries.last())
        } else {
            rest
        }
    }
}

/// All commits of the entries, group after group.
pub open spec fn flatten(entries: Entries) -> Seq<Commit>
    decreases entries.len(),
{
    if entries.len() == 0 {
        Seq::empty()
    } else {
        flatten(entries.drop_last()) + entries.last().1
    }
}

/// One group under the first key holding every commit, or nothing when there are no groups.
pub open spec fn overlaid(entries: Entries) -> Entries {
    if entries.len() == 0 {
        entries
    } else {
        seq![(entries[0].0, flatten(entries))]
    }
}

/// Whether the user is asked to pick groups.
pub open spec fn prompts(choose: PromptUserToChooseCommits, overlay: OverlayCommitsIntoOnePullRequest) -> bool {
    !(choose == PromptUserToChooseCommits::No && overlay == OverlayCommitsIntoOnePullRequest::No)
}

pub proof fn lemma_kept_from(entries: Entries, chosen: Seq<IssueGroupView>)
    ensures
        kept(entries, chosen).len() <= entries.len(),
        forall|k: int|
            0 <= k < kept(entries, chosen).len() ==> exists|j: int|
                0 <= j < entries.len() && #[trigger] kept(entries, chosen)[k] == entries[j]
                    && chosen.contains(entries[j].0),
    decreases entries.len(),
{
    if entries.len() > 0 {
        let rest = entries.drop_last();
        lemma_kept_from(rest, chosen);
        assert forall|k: int| 0 <= k < kept(entries, chosen).len() implies exists|j: int|
            0 <= j < entries.len() && #[trigger] kept(entries, chosen)[k] == entries[j]
                && chosen.contains(entries[j].0) by {
            if k < kept(rest, chosen).len() {
                let j = choose|j: int|
                    0 <= j < rest.len() && #[trigger] kept(rest, chosen)[k] == rest[j]
                        && chosen.contains(rest[j].0);
                assert(entries[j] == rest[j]);
            } else {
                assert(kept(entries, chosen)[k] == entries[entries.len() - 1]);
            }
        }
    }
}

pub proof fn lemma_kept_wf(entries: Entries, chosen: Seq<IssueGroupView>)
    requires
        entries_wf(entries),
    ensures
        entries_wf(kept(entries, chosen)),
    decreases entries.len(),
{
    if entries.len() > 0 {
        let rest = entries.drop_last();
        assert(entries_wf(rest));
        lemma_kept_wf(rest, chosen);
        lemma_kept_from(rest, chosen);
        let kr = kept(rest, chosen);
        let last = entries.last();
        assert forall|k: int| 0 <= k < kr.len() implies kr[k].0 != last.0 by {
            let j = choose|j: int| 0 <= j < rest.len() && #[trigger] kr[k] == rest[j] && chosen.contains(rest[j].0);
            assert(entries[j] == rest[j]);
        }
    }
}

fn contains_group(v: &Vec<IssueGroup>, g: &IssueGroup) -> (r: bool)
    ensures
        r == group_views(v@).contains(g@),
{
    let mut i: usize = 0;
    while i < v.len()
        invariant
            i <= v@.len(),
            forall|j: int| 0 <= j < i ==> (#[trigger] v@[j])@ != g@,
        decreases v@.len() - i,
    {
        if v[i].same_as(g) {
            assert(group_views(v@)[i as int] == g@);
            return true;
        }
        i = i + 1;
    }
    assert forall|j: int| 0 <= j < group_views(v@).len() implies group_views(v@)[j] != g@ by {
        assert(group_views(v@)[j] == v@[j]@);
    }
    false
}

/// Whether a commit is left out of every group: it has no issue to group by, and
/// neither every commit nor individual grouping was asked for.
pub fn ignores_commit(
    commit: &Commit,
    commits_to_consider: CommitsToConsider,
    commit_grouping: CommitGrouping,
) -> (r: bool)
    ensures
        r == (!(commit_grouping == CommitGrouping::ByIssue && commit_issue(*commit) is Some)
            && !keeps_alone(commits_to_consider, commit_grouping)),
{
    if commit_grouping == CommitGrouping::Individual || commits_to_consider == CommitsToConsider::All {
        return false;
    }
    match &commit.message {
        Some(m) => Issue::parse_from_commit_message(m.as_str()).is_none(),
        None => true,
    }
}

impl IssueGroupMap {
    /// The group keys, in order.
    pub fn keys(&self) -> (r: Vec<IssueGroup>)
        ensures
            group_views(r@) == keys_of(self@),
    {
        let n = entry_count(&self.0);
        let mut r: Vec<IssueGroup> = Vec::new();
        let mut i: usize = 0;
        while i < n
            invariant
                n == group_entries(self.0).len(),
                i <= n,
                r@.len() == i,
                forall|j: int| 0 <= j < i ==> (#[trigger] r@[j])@ == group_entries(self.0)[j].0,
            decreases n - i,
        {
            match entry_at(&self.0, i) {
                Some((key, _)) => {
                    r.push(key.duplicate());
                },
                None => {},
            }
            i = i + 1;
        }
        assert(group_views(r@) =~= keys_of(self@));
        r
    }

    /// Keep only the groups in `chosen`, when the user is asked to pick (`choose`
    /// or `overlay`); otherwise keep every group.
    pub fn select_issues(
        self,
        choose: PromptUserToChooseCommits,
        overlay: OverlayCommitsIntoOnePullRequest,
        chosen: &Vec<IssueGroup>,
    ) -> (r: IssueGroupMap)
        requires
            self.wf(),
        ensures
            r.wf(),
            prompts(choose, overlay) ==> r@ == kept(self@, group_views(chosen@)),
            !prompts(choose, overlay) ==> r@ == self@,
    {
        if choose == PromptUserToChooseCommits::No && overlay == OverlayCommitsIntoOnePullRequest::No {
            return self;
        }
        let ghost entries = self@;
        let ghost w = group_views(chosen@);
        let mut rest = into_entries(self.0);
        let n = rest.len();
        let mut map = new_index();
        let mut i: usize = 0;
        while i < n
            invariant
                n == entries.len(),
                i <= n,
                entries_wf(entries),
                w == group_views(chosen@),
                rest@.len() == n - i,
                forall|j: int|
                    0 <= j < rest@.len() ==> (#[trigger] rest@[j]).0@ == entries[i + j].0 && rest@[j].1@
                        == entries[i + j].1,
                group_entries(map) == kept(entries.subrange(0, i as int), w),
            decreases n - i,
        {
            let ghost before_rest = rest@;
            let (key, commits) = rest.remove(0);
            assert(key@ == entries[i as int].0 && commits@ == entries[i as int].1) by {
                assert(before_rest[0].0@ == entries[i + 0].0);
            }
            let ghost prefix = entries.subrange(0, i as int);
            let ghost next = entries.subrange(0, i + 1);
            assert(next.drop_last() =~= prefix);
            assert(next.last() == entries[i as int]);
            if contains_group(chosen, &key) {
                proof {
                    let kp = kept(prefix, w);
                    lemma_kept_from(prefix, w);
                    lemma_key_position(kp, key@);
                    if key_position(kp, key@) < kp.len() {
                        let k = key_position(kp, key@);
                        let j = choose|j: int| 0 <= j < prefix.len() && #[trigger] kp[k] == prefix[j] && w.contains(prefix[j].0);
                        assert(entries[j] == prefix[j]);
                        assert(false);
                    }
                }
                let _ = insert_entry(&mut map, key, commits);
                assert(group_entries(map) =~= kept(next, w));
            }
            proof {
                assert forall|j: int| 0 <= j < rest@.len() implies (#[trigger] rest@[j]).0@ == entries[i + 1 + j].0
                    && rest@[j].1@ == entries[i + 1 + j].1 by {
                    assert(rest@[j] == before_rest[j + 1]);
                }
            }
            i = i + 1;
        }
        proof {
            assert(entries.subrange(0, n as int) =~= entries);
            lemma_kept_wf(entries, w);
        }
        IssueGroupMap(map)
    }
}

impl IssueGroupMap {
    /// With `overlay`, fold every group into one under the first key, commits in
    /// their order; otherwise leave the groups as they are.
    pub fn apply_overlay(self, overlay: OverlayCommitsIntoOnePullRequest) -> (r: IssueGroupMap)
        requires
            self.wf(),
        ensures
            r.wf(),
            overlay == OverlayCommitsIntoOnePullRequest::Yes ==> r@ == overlaid(self@),
            overlay == OverlayCommitsIntoOnePullRequest::No ==> r@ == self@,
    {
        if overlay == OverlayCommitsIntoOnePullRequest::No {
            return self;
        }
        let ghost entries = self@;
        let mut rest = into_entries(self.0);
        let n = rest.len();
        let mut map = new_index();
        if n == 0 {
            assert(overlaid(entries) =~= Seq::<(IssueGroupView, Seq<Commit>)>::empty());
            return IssueGroupMap(map);
        }
        let ghost first_rest = rest@;
        let (key, mut all) = rest.remove(0);
        assert(key@ == entries[0].0 && all@ == entries[0].1) by {
            assert(first_rest[0].0@ == entries[0].0);
        }
        proof {
            let s1 = entries.subrange(0, 1);
            assert(s1.drop_last() =~= Seq::<(IssueGroupView, Seq<Commit>)>::empty());
            assert(flatten(s1.drop_last()) =~= Seq::<Commit>::empty());
            assert(s1.last() == entries[0]);
            assert(flatten(s1) =~= entries[0].1);
        }
        let mut i: usize = 1;
        while i < n
            invariant
                n == entries.len(),
                1 <= i <= n,
                entries_wf(entries),
                rest@.len() == n - i,
                forall|j: int|
                    0 <= j < rest@.len() ==> (#[trigger] rest@[j]).1@ == entries[i + j].1,
                all@ == flatten(entries.subrange(0, i as int)),
                all@.len() > 0,
            decreases n - i,
        {
            let ghost before_rest = rest@;
            let (_, mut commits) = rest.remove(0);
            assert(commits@ == entries[i as int].1) by {
                assert(before_rest[0].1@ == entries[i + 0].1);
            }
            all.append(&mut commits);
            proof {
                let next = entries.subrange(0, i + 1);
                assert(next.drop_last() =~= entries.subrange(0, i as int));
                assert forall|j: int| 0 <= j < rest@.len() implies (#[trigger] rest@[j]).1@ == entries[i + 1 + j].1 by {
                    assert(rest@[j] == before_rest[j + 1]);
                }
            }
            i = i + 1;
        }
        let _ = insert_entry(&mut map, key, all);
        proof {
            assert(entries.subrange(0, n as int) =~= entries);
            assert(group_entries(map) =~= overlaid(entries));
        }
        IssueGroupMap(map)
    }
}

/// Classifying the same commits with the same switches gives the same groups, in
/// the same order, or the same failure.
pub proof fn classification_is_deterministic(
    commits: Seq<Commit>,
    consider: CommitsToConsider,
    grouping: CommitGrouping,
    first: Result<Entries, ClassifyFailure>,
    second: Result<Entries, ClassifyFailure>,
)
    requires
        first == classified(commits, consider, grouping),
        second == classified(commits, consider, grouping),
    ensures
        first == second,
{
}

pub proof fn lemma_prefix_wf(
    commits: Seq<Commit>,
    n: nat,
    consider: CommitsToConsider,
    grouping: CommitGrouping,
)
    ensures
        classify_prefix(commits, n, consider, grouping) matches Ok(st) ==> entries_wf(st.entries),
    decreases n,
{
    if n > 0 && n <= commits.len() {
        lemma_prefix_wf(commits, (n - 1) as nat, consider, grouping);
        match classify_prefix(commits, (n - 1) as nat, consider, grouping) {
            Ok(st) => {
                match commit_key(commits[n - 1], st.seen, st.suffix, consider, grouping) {
                    Ok((Some(k), _, _)) => lemma_add_commit_wf(st.entries, k, commits[n - 1]),
                    _ => {},
                }
            },
            Err(_) => {},
        }
    }
}

/// Every classification that succeeds has pairwise distinct group keys, and no
/// empty group.
pub proof fn classified_groups_are_distinct_and_nonempty(
    commits: Seq<Commit>,
    consider: CommitsToConsider,
    grouping: CommitGrouping,
)
    ensures
        classified(commits, consider, grouping) matches Ok(entries) ==> entries_wf(entries),
{
    lemma_prefix_wf(commits, commits.len(), consider, grouping);
}

/// The first index from `i` on whose key is in `chosen`, or the length.
pub open spec fn first_chosen_from(entries: Entries, chosen: Seq<IssueGroupView>, i: int) -> int
    decreases entries.len() - i,
{
    if i < 0 || i >= entries.len() {
        entries.len() as int
    } else if chosen.contains(entries[i].0) {
        i
    } else {
        first_chosen_from(entries, chosen, i + 1)
    }
}

pub proof fn lemma_first_chosen_range(entries: Entries, chosen: Seq<IssueGroupView>, i: int)
    requires
        0 <= i <= entries.len(),
    ensures
        i <= first_chosen_from(entries, chosen, i) <= entries.len(),
    decreases entries.len() - i,
{
    if i < entries.len() {
        lemma_first_chosen_range(entries, chosen, i + 1);
    }
}

pub proof fn lemma_kept_first(entries: Entries, chosen: Seq<IssueGroupView>)
    ensures
        kept(entries, chosen).len() == 0 <==> first_chosen_from(entries, chosen, 0) == entries.len(),
        kept(entries, chosen).len() > 0 ==> kept(entries, chosen)[0] == entries[first_chosen_from(
            entries,
            chosen,
            0,
        )],
    decreases entries.len(),
{
    if entries.len() > 0 {
        let rest = entries.drop_last();
        lemma_kept_first(rest, chosen);
        lemma_first_chosen_drop_last(entries, chosen, 0);
        lemma_first_chosen_range(rest, chosen, 0);
        lemma_first_chosen_range(entries, chosen, 0);
        let f = first_chosen_from(rest, chosen, 0);
        if kept(rest, chosen).len() > 0 {
            assert(rest[f] == entries[f]);
        }
    } else {
        assert(first_chosen_from(entries, chosen, 0) == 0);
    }
}

pub proof fn lemma_first_chosen_drop_last(entries: Entries, chosen: Seq<IssueGroupView>, i: int)
    requires
        entries.len() > 0,
        0 <= i <= entries.len() - 1,
    ensures
        first_chosen_from(entries.drop_last(), chosen, i) < entries.len() - 1 ==> first_chosen_from(
            entries,
            chosen,
            i,
        ) == first_chosen_from(entries.drop_last(), chosen, i),
        first_chosen_from(entries.drop_last(), chosen, i) == entries.len() - 1 ==> first_chosen_from(
            entries,
            chosen,
            i,
        ) == if chosen.contains(entries.last().0) {
            entries.len() - 1
        } else {
            entries.len() as int
        },
    decreases entries.len() - i,
{
    let rest = entries.drop_last();
    if i < entries.len() - 1 {
        assert(rest[i] == entries[i]);
        lemma_first_chosen_drop_last(entries, chosen, i + 1);
    } else {
        assert(first_chosen_from(rest, chosen, i) == rest.len());
        assert(first_chosen_from(entries, chosen, i + 1) == entries.len());
    }
}

/// Picking groups and then overlaying them gives one group, under the first picked
/// key (in the map's order), holding the picked groups' commits one group after
/// another in the map's order; nothing is picked, no group is left.
pub proof fn overlay_of_selection(entries: Entries, chosen: Seq<IssueGroupView>)
    requires
        entries_wf(entries),
    ensures
        first_chosen_from(entries, chosen, 0) == entries.len() ==> overlaid(kept(entries, chosen)).len()
            == 0,
        first_chosen_from(entries, chosen, 0) < entries.len() ==> overlaid(kept(entries, chosen))
            == seq![(entries[first_chosen_from(entries, chosen, 0)].0, flatten(kept(entries, chosen)))],
{
    lemma_kept_first(entries, chosen);
}

impl IssueGroupMap {
    /// The groups, by value, in order.
    pub fn into_entries(self) -> (r: Vec<(IssueGroup, Vec<Commit>)>)
        ensures
            r@.len() == self@.len(),
            forall|i: int|
                0 <= i < r@.len() ==> (#[trigger] r@[i]).0@ == self@[i].0 && r@[i].1@ == self@[i].1,
    {
        into_entries(self.0)
    }
}
} // verus!
