//! Issue references found in commit-message trailers.
//!
//! Two trailer shapes are recognised, each anchored at the start of a line:
//! a ticket trailer `Ticket: <token>` (optionally written `Closes Ticket: <token>`),
//! and a closing trailer `closes #<digits>` whose keyword is one of `closes`,
//! `close`, `closed`, `fixes`, `fixed`, compared without regard to case. The first
//! ticket trailer wins; only when there is none does the first closing trailer count.
use vstd::prelude::*;

use crate::text::{chars_of, is_decimal, is_decimal_digit, is_white_space, is_whitespace};

verus! {

/// A ticket (`Jira`) or GitHub issue identifier.
#[derive(Debug, Clone, PartialEq, Eq, Hash, PartialOrd, Ord)]
pub enum Issue {
    Jira(String),
    GitHub(String),
}

/// The mathematical value of an [`Issue`].
pub enum IssueView {
    Jira(Seq<char>),
    GitHub(Seq<char>),
}

impl IssueView {
    pub open spec fn identifier(self) -> Seq<char> {
        match self {
            IssueView::Jira(t) => t,
            IssueView::GitHub(n) => n,
        }
    }
}

impl View for Issue {
    type V = IssueView;

    open spec fn view(&self) -> IssueView {
        match self {
            Issue::Jira(t) => IssueView::Jira(t@),
            Issue::GitHub(n) => IssueView::GitHub(n@),
        }
    }
}

/// Which characters a run is made of.
pub enum CharClass {
    Space,
    NonSpace,
    Digit,
}

pub open spec fn in_class(c: char, class: CharClass) -> bool {
    match class {
        CharClass::Space => is_white_space(c),
        CharClass::NonSpace => !is_white_space(c),
        CharClass::Digit => is_decimal_digit(c),
    }
}

/// The end of the longest run of `class` characters that starts at `i`.
pub open spec fn run_end(s: Seq<char>, i: int, class: CharClass) -> int
    decreases s.len() - i,
{
    if 0 <= i < s.len() && in_class(s[i], class) {
        run_end(s, i + 1, class)
    } else {
        i
    }
}

pub open spec fn is_line_start(s: Seq<char>, p: int) -> bool {
    p == 0 || (0 < p <= s.len() && s[p - 1] == '\n')
}

pub open spec fn literal_at(s: Seq<char>, p: int, lit: Seq<char>) -> bool {
    0 <= p && p + lit.len() <= s.len() && s.subrange(p, p + lit.len()) == lit
}

pub open spec fn closes_ticket_literal() -> Seq<char> {
    seq!['C', 'l', 'o', 's', 'e', 's', ' ', 'T', 'i', 'c', 'k', 'e', 't', ':']
}

pub open spec fn ticket_literal() -> Seq<char> {
    seq!['T', 'i', 'c', 'k', 'e', 't', ':']
}

/// The token of a ticket trailer whose keyword ends just before `k`: at least one
/// whitespace character, then the longest run of non-whitespace characters.
pub open spec fn ticket_token_after(s: Seq<char>, k: int) -> Option<Seq<char>> {
    let j = run_end(s, k, CharClass::Space);
    if k < j < s.len() {
        Some(s.subrange(j, run_end(s, j, CharClass::NonSpace)))
    } else {
        None
    }
}

/// The ticket of a ticket trailer that starts at `p`, if one does.
pub open spec fn ticket_at(s: Seq<char>, p: int) -> Option<Seq<char>> {
    if !is_line_start(s, p) {
        None
    } else if literal_at(s, p, closes_ticket_literal()) {
        ticket_token_after(s, p + closes_ticket_literal().len())
    } else if literal_at(s, p, ticket_literal()) {
        ticket_token_after(s, p + ticket_literal().len())
    } else {
        None
    }
}

/// The ticket of the first ticket trailer that starts at or after `p`.
pub open spec fn first_ticket_from(s: Seq<char>, p: int) -> Option<Seq<char>>
    decreases s.len() + 1 - p,
{
    if p < 0 || p > s.len() {
        None
    } else if ticket_at(s, p) is Some {
        ticket_at(s, p)
    } else {
        first_ticket_from(s, p + 1)
    }
}

/// `c` matches the lower-case keyword letter `k` under simple case folding.
pub open spec fn folds_to(c: char, k: char) -> bool {
    c == k || (c as u32) + 32 == (k as u32) || (k == 's' && (c as u32) == 0x17f)
}

pub open spec fn keyword_at(s: Seq<char>, p: int, kw: Seq<char>) -> bool {
    &&& 0 <= p
    &&& p + kw.len() <= s.len()
    &&& forall|i: int| 0 <= i < kw.len() ==> folds_to(#[trigger] s[p + i], kw[i])
}

pub open spec fn closing_keywords() -> Seq<Seq<char>> {
    seq![
        seq!['c', 'l', 'o', 's', 'e', 's'],
        seq!['c', 'l', 'o', 's', 'e'],
        seq!['c', 'l', 'o', 's', 'e', 'd'],
        seq!['f', 'i', 'x', 'e', 's'],
        seq!['f', 'i', 'x', 'e', 'd'],
    ]
}

/// The number of a closing trailer whose keyword ends just before `k`: at least
/// one whitespace character, `#`, then the longest run of decimal digits (at least one).
pub open spec fn issue_number_after(s: Seq<char>, k: int) -> Option<Seq<char>> {
    let j = run_end(s, k, CharClass::Space);
    if k < j && j + 1 < s.len() && s[j] == '#' && is_decimal_digit(s[j + 1]) {
        Some(s.subrange(j + 1, run_end(s, j + 1, CharClass::Digit)))
    } else {
        None
    }
}

/// The number of a closing trailer at `p` that uses one of the keywords from
/// index `w` on, trying them in order.
pub open spec fn closing_with_keywords(s: Seq<char>, p: int, w: int) -> Option<Seq<char>>
    decreases closing_keywords().len() - w,
{
    if w < 0 || w >= closing_keywords().len() {
        None
    } else {
        let kw = closing_keywords()[w];
        if keyword_at(s, p, kw) && issue_number_after(s, p + kw.len()) is Some {
            issue_number_after(s, p + kw.len())
        } else {
            closing_with_keywords(s, p, w + 1)
        }
    }
}

pub open spec fn closing_at(s: Seq<char>, p: int) -> Option<Seq<char>> {
    if is_line_start(s, p) {
        closing_with_keywords(s, p, 0)
    } else {
        None
    }
}

/// The number of the first closing trailer that starts at or after `p`.
pub open spec fn first_closing_from(s: Seq<char>, p: int) -> Option<Seq<char>>
    decreases s.len() + 1 - p,
{
    if p < 0 || p > s.len() {
        None
    } else if closing_at(s, p) is Some {
        closing_at(s, p)
    } else {
        first_closing_from(s, p + 1)
    }
}

/// The issue that a commit message refers to.
pub open spec fn issue_of_message(s: Seq<char>) -> Option<IssueView> {
    match first_ticket_from(s, 0) {
        Some(t) => Some(IssueView::Jira(t)),
        None => match first_closing_from(s, 0) {
            Some(n) => Some(IssueView::GitHub(n)),
            None => None,
        },
    }
}

pub open spec fn option_issue_view(r: Option<Issue>) -> Option<IssueView> {
    match r {
        Some(i) => Some(i@),
        None => None,
    }
}

fn in_class_exec(c: char, class: &CharClass) -> (r: bool)
    ensures
        r == in_class(c, *class),
{
    match class {
        CharClass::Space => is_whitespace(c),
        CharClass::NonSpace => !is_whitespace(c),
        CharClass::Digit => is_decimal(c),
    }
}

fn skip_run(s: &Vec<char>, i: usize, class: &CharClass) -> (j: usize)
    requires
        i <= s@.len(),
    ensures
        j as int == run_end(s@, i as int, *class),
        i <= j <= s@.len(),
{
    let mut j = i;
    while j < s.len() && in_class_exec(s[j], class)
        invariant
            i <= j <= s@.len(),
            run_end(s@, j as int, *class) == run_end(s@, i as int, *class),
        decreases s@.len() - j,
    {
        j = j + 1;
    }
    j
}

fn literal_at_exec(s: &Vec<char>, p: usize, lit: &Vec<char>) -> (r: bool)
    ensures
        r == literal_at(s@, p as int, lit@),
{
    let n = s.len();
    if lit.len() > n || p > n - lit.len() {
        return false;
    }
    let mut i: usize = 0;
    while i < lit.len()
        invariant
            n == s@.len(),
            p + lit@.len() <= s@.len(),
            i <= lit@.len(),
            forall|k: int| 0 <= k < i ==> s@[p + k] == lit@[k],
        decreases lit@.len() - i,
    {
        if s[p + i] != lit[i] {
            assert(s@.subrange(p as int, p + lit@.len())[i as int] != lit@[i as int]);
            return false;
        }
        i = i + 1;
    }
    assert(s@.subrange(p as int, p + lit@.len()) =~= lit@);
    true
}

fn folds_to_exec(c: char, k: char) -> (r: bool)
    requires
        (k as u32) >= 32,
    ensures
        r == folds_to(c, k),
{
    c == k || (c as u32) == (k as u32) - 32 || (k == 's' && (c as u32) == 0x17f)
}

fn keyword_at_exec(s: &Vec<char>, p: usize, kw: &Vec<char>) -> (r: bool)
    requires
        forall|i: int| 0 <= i < kw@.len() ==> (#[trigger] kw@[i] as u32) >= 32,
    ensures
        r == keyword_at(s@, p as int, kw@),
{
    let n = s.len();
    if kw.len() > n || p > n - kw.len() {
        return false;
    }
    let mut i: usize = 0;
    while i < kw.len()
        invariant
            n == s@.len(),
            p + kw@.len() <= s@.len(),
            i <= kw@.len(),
            forall|k: int| 0 <= k < kw@.len() ==> (#[trigger] kw@[k] as u32) >= 32,
            forall|k: int| 0 <= k < i ==> folds_to(#[trigger] s@[p + k], kw@[k]),
        decreases kw@.len() - i,
    {
        if !folds_to_exec(s[p + i], kw[i]) {
            return false;
        }
        i = i + 1;
    }
    true
}

fn ticket_token_after_exec(m: &str, s: &Vec<char>, k: usize) -> (r: Option<String>)
    requires
        s@ == m@,
        k <= s@.len(),
    ensures
        r matches Some(t) ==> ticket_token_after(s@, k as int) == Some(t@),
        r is None ==> ticket_token_after(s@, k as int) is None,
{
    let j = skip_run(s, k, &CharClass::Space);
    if k < j && j < s.len() {
        let e = skip_run(s, j, &CharClass::NonSpace);
        Some(String::from_str(m.substring_char(j, e)))
    } else {
        None
    }
}

fn ticket_at_exec(m: &str, s: &Vec<char>, p: usize) -> (r: Option<String>)
    requires
        s@ == m@,
        p <= s@.len(),
    ensures
        r matches Some(t) ==> ticket_at(s@, p as int) == Some(t@),
        r is None ==> ticket_at(s@, p as int) is None,
{
    let n = s.len();
    if !(p == 0 || s[p - 1] == '\n') {
        return None;
    }
    let closes_ticket = vec!['C', 'l', 'o', 's', 'e', 's', ' ', 'T', 'i', 'c', 'k', 'e', 't', ':'];
    let ticket = vec!['T', 'i', 'c', 'k', 'e', 't', ':'];
    assert(closes_ticket@ == closes_ticket_literal());
    assert(ticket@ == ticket_literal());
    if literal_at_exec(s, p, &closes_ticket) {
        ticket_token_after_exec(m, s, p + closes_ticket.len())
    } else if literal_at_exec(s, p, &ticket) {
        ticket_token_after_exec(m, s, p + ticket.len())
    } else {
        None
    }
}

fn issue_number_after_exec(m: &str, s: &Vec<char>, k: usize) -> (r: Option<String>)
    requires
        s@ == m@,
        k <= s@.len(),
    ensures
        r matches Some(t) ==> issue_number_after(s@, k as int) == Some(t@),
        r is None ==> issue_number_after(s@, k as int) is None,
{
    let n = s.len();
    let j = skip_run(s, k, &CharClass::Space);
    if k < j && j < n - 1 && s[j] == '#' && is_decimal(s[j + 1]) {
        let e = skip_run(s, j + 1, &CharClass::Digit);
        Some(String::from_str(m.substring_char(j + 1, e)))
    } else {
        None
    }
}

fn closing_at_exec(m: &str, s: &Vec<char>, p: usize) -> (r: Option<String>)
    requires
        s@ == m@,
        p <= s@.len(),
    ensures
        r matches Some(t) ==> closing_at(s@, p as int) == Some(t@),
        r is None ==> closing_at(s@, p as int) is None,
{
    let n = s.len();
    if !(p == 0 || s[p - 1] == '\n') {
        return None;
    }
    let keywords: Vec<Vec<char>> = vec![
        vec!['c', 'l', 'o', 's', 'e', 's'],
        vec!['c', 'l', 'o', 's', 'e'],
        vec!['c', 'l', 'o', 's', 'e', 'd'],
        vec!['f', 'i', 'x', 'e', 's'],
        vec!['f', 'i', 'x', 'e', 'd'],
    ];
    assert(keywords@.len() == closing_keywords().len());
    assert(forall|w: int| 0 <= w < 5 ==> #[trigger] keywords@[w]@ == closing_keywords()[w]);
    let mut w: usize = 0;
    while w < keywords.len()
        invariant
            s@ == m@,
            n == s@.len(),
            p <= s@.len(),
            is_line_start(s@, p as int),
            w <= keywords@.len(),
            keywords@.len() == closing_keywords().len(),
            forall|v: int| 0 <= v < 5 ==> #[trigger] keywords@[v]@ == closing_keywords()[v],
            closing_with_keywords(s@, p as int, w as int) == closing_with_keywords(
                s@,
                p as int,
                0,
            ),
        decreases keywords@.len() - w,
    {
        let kw = &keywords[w];
        assert(kw@ == closing_keywords()[w as int]);
        assert(forall|i: int| 0 <= i < kw@.len() ==> (#[trigger] kw@[i] as u32) >= 32);
        if keyword_at_exec(s, p, kw) {
            let found = issue_number_after_exec(m, s, p + kw.len());
            if found.is_some() {
                return found;
            }
        }
        w = w + 1;
    }
    None
}

impl Issue {
    /// Find the issue that a commit message refers to.
    pub fn parse_from_commit_message(commit_message: &str) -> (r: Option<Issue>)
        ensures
            option_issue_view(r) == issue_of_message(commit_message@),
    {
        let s = chars_of(commit_message);
        let n = s.len();
        let mut p: usize = 0;
        while p < n
            invariant
                s@ == commit_message@,
                n == s@.len(),
                p <= n,
                first_ticket_from(s@, p as int) == first_ticket_from(s@, 0),
            decreases n - p,
        {
            let found = ticket_at_exec(commit_message, &s, p);
            match found {
                Some(t) => {
                    return Some(Issue::Jira(t));
                },
                None => {},
            }
            p = p + 1;
        }
        assert(first_ticket_from(s@, n as int + 1) is None);
        assert(ticket_at(s@, n as int) is None);
        let mut p: usize = 0;
        while p < n
            invariant
                s@ == commit_message@,
                n == s@.len(),
                p <= n,
                first_ticket_from(s@, 0) is None,
                first_closing_from(s@, p as int) == first_closing_from(s@, 0),
            decreases n - p,
        {
            let found = closing_at_exec(commit_message, &s, p);
            match found {
                Some(n) => {
                    return Some(Issue::GitHub(n));
                },
                None => {},
            }
            p = p + 1;
        }
        assert(first_closing_from(s@, n as int + 1) is None);
        assert(closing_at(s@, n as int) is None) by {
            reveal_with_fuel(closing_with_keywords, 6);
        }
        None
    }

    /// The identifier inside the issue, without its kind.
    pub fn issue_identifier(&self) -> (r: &str)
        ensures
            r@ == self@.identifier(),
    {
        match self {
            Issue::Jira(ticket) => ticket.as_str(),
            Issue::GitHub(issue) => issue.as_str(),
        }
    }

    /// A human-readable description: `Jira <ticket>` or `GitHub #<number>`.
    pub fn to_string(&self) -> (r: String)
        ensures
            r@ == match self@ {
                IssueView::Jira(t) => "Jira "@ + t,
                IssueView::GitHub(n) => "GitHub #"@ + n,
            },
    {
        match self {
            Issue::Jira(ticket) => String::from_str("Jira ").concat(ticket.as_str()),
            Issue::GitHub(issue) => String::from_str("GitHub #").concat(issue.as_str()),
        }
    }
}

/// Parsing depends on the message alone: the same message always gives the same
/// issue, or none.
pub proof fn parsing_is_deterministic(
    message: Seq<char>,
    first: Option<IssueView>,
    second: Option<IssueView>,
)
    requires
        first == issue_of_message(message),
        second == issue_of_message(message),
    ensures
        first == second,
{
}

} // verus!
