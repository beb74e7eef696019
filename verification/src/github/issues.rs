//! Issues as the remote side reports them.

use vstd::prelude::*;

verus! {

/// Whether an issue is still open on the remote side.
#[derive(Debug, Clone, Copy, PartialEq, Eq, Structural)]
pub enum IssueState {
    Open,
    Closed,
}

/// A remote issue: its number, unique within a repository, its title and
/// its state.
#[derive(Debug, PartialEq)]
pub struct GitHubIssue {
    pub number: u64,
    pub title: String,
    pub state: IssueState,
}

/// The mathematical content of a [`GitHubIssue`].
pub struct GitHubIssueView {
    pub number: u64,
    pub title: Seq<char>,
    pub state: IssueState,
}

impl View for GitHubIssue {
    type V = GitHubIssueView;

    open spec fn view(&self) -> GitHubIssueView {
        GitHubIssueView { number: self.number, title: self.title@, state: self.state }
    }
}

impl DeepView for GitHubIssue {
    type V = GitHubIssueView;

    open spec fn deep_view(&self) -> GitHubIssueView {
        self@
    }
}

impl Clone for GitHubIssue {
    fn clone(&self) -> (r: Self)
        ensures
            r == *self,
    {
        GitHubIssue { number: self.number, title: self.title.clone(), state: self.state }
    }
}

/// The first issue of `issues` that carries `number`, if any does.
pub open spec fn first_numbered(issues: Seq<GitHubIssueView>, number: u64) -> Option<
    GitHubIssueView,
>
    decreases issues.len(),
{
    if issues.len() == 0 {
        None
    } else if issues[0].number == number {
        Some(issues[0])
    } else {
        first_numbered(issues.drop_first(), number)
    }
}

/// The last issue of `issues` that carries `number`, if any does.
pub open spec fn last_numbered(issues: Seq<GitHubIssueView>, number: u64) -> Option<
    GitHubIssueView,
>
    decreases issues.len(),
{
    if issues.len() == 0 {
        None
    } else if issues.last().number == number {
        Some(issues.last())
    } else {
        last_numbered(issues.drop_last(), number)
    }
}

/// Whether no two issues of `issues` share a number.
pub open spec fn distinct_numbers(issues: Seq<GitHubIssueView>) -> bool {
    forall|i: int, j: int|
        0 <= i < j < issues.len() ==> (#[trigger] issues[i]).number != (#[trigger] issues[j]).number
}

/// The first issue of `issues` that carries `number`, if any does.
pub fn find_issue(issues: &[GitHubIssue], number: u64) -> (r: Option<&GitHubIssue>)
    ensures
        r.deep_view() == first_numbered(issues.deep_view(), number),
{
    let ghost all = issues.deep_view();
    let mut at: usize = 0;
    assert(all.skip(0) == all);
    while at < issues.len()
        invariant
            at <= issues.len(),
            all == issues.deep_view(),
            first_numbered(all, number) == first_numbered(all.skip(at as int), number),
        decreases issues.len() - at,
    {
        assert(all.skip(at as int)[0] == issues[at as int]@);
        if issues[at].number == number {
            return Some(&issues[at]);
        }
        assert(all.skip(at as int).drop_first() == all.skip(at as int + 1));
        at += 1;
    }
    None
}

} // verus!
