//! From the local checklist to the remote side: which issues to create and
//! which to close, and what to record once that is done.

use vstd::prelude::*;
use crate::github::issues::{first_numbered, find_issue, GitHubIssue, GitHubIssueView, IssueState};
use crate::todo::{TodoItem, TodoItemView};

verus! {

/// An effect to apply on the remote side, derived from the local checklist.
#[derive(Debug, PartialEq)]
pub enum GitHubOperation {
    CreateIssue { title: String },
    CloseIssue { number: u64 },
}

/// The mathematical content of a [`GitHubOperation`].
pub enum GitHubOperationView {
    CreateIssue { title: Seq<char> },
    CloseIssue { number: u64 },
}

impl View for GitHubOperation {
    type V = GitHubOperationView;

    open spec fn view(&self) -> GitHubOperationView {
        match self {
            GitHubOperation::CreateIssue { title } => GitHubOperationView::CreateIssue {
                title: title@,
            },
            GitHubOperation::CloseIssue { number } => GitHubOperationView::CloseIssue {
                number: *number,
            },
        }
    }
}

impl DeepView for GitHubOperation {
    type V = GitHubOperationView;

    open spec fn deep_view(&self) -> GitHubOperationView {
        self@
    }
}

impl Clone for GitHubOperation {
    fn clone(&self) -> (r: Self)
        ensures
            r == *self,
    {
        match self {
            GitHubOperation::CreateIssue { title } => GitHubOperation::CreateIssue {
                title: title.clone(),
            },
            GitHubOperation::CloseIssue { number } => GitHubOperation::CloseIssue {
                number: *number,
            },
        }
    }
}

/// The operation that one checklist item calls for, if it calls for one:
/// an item that is neither ticked nor tracked asks for a new issue under its
/// text; a ticked item asks to close the issue it tracks while that issue is
/// open; every other item asks for nothing.
pub open spec fn operation_for(item: TodoItemView, issues: Seq<GitHubIssueView>) -> Option<
    GitHubOperationView,
> {
    match (item.is_checked, item.issue_number) {
        (false, None) => Some(GitHubOperationView::CreateIssue { title: item.text }),
        (true, Some(number)) => match first_numbered(issues, number) {
            Some(issue) => if issue.state == IssueState::Open {
                Some(GitHubOperationView::CloseIssue { number })
            } else {
                None
            },
            None => None,
        },
        _ => None,
    }
}

/// The operations that a checklist calls for, each beside its item, in the
/// order of the checklist.
pub open spec fn planned_operations(
    items: Seq<TodoItemView>,
    issues: Seq<GitHubIssueView>,
) -> Seq<(TodoItemView, GitHubOperationView)>
    decreases items.len(),
{
    if items.len() == 0 {
        Seq::empty()
    } else {
        let earlier = planned_operations(items.drop_last(), issues);
        match operation_for(items.last(), issues) {
            Some(operation) => earlier.push((items.last(), operation)),
            None => earlier,
        }
    }
}

/// For each planned operation, the position in `items` of the item that
/// called for it.
pub open spec fn operation_sources(items: Seq<TodoItemView>, issues: Seq<GitHubIssueView>) -> Seq<
    int,
>
    decreases items.len(),
{
    if items.len() == 0 {
        Seq::empty()
    } else {
        let earlier = operation_sources(items.drop_last(), issues);
        if operation_for(items.last(), issues) is Some {
            earlier.push(items.len() - 1)
        } else {
            earlier
        }
    }
}

/// The operation that `item` calls for, given the known remote issues.
pub fn operation_for_item(item: &TodoItem, github_issues: &[GitHubIssue]) -> (r: Option<
    GitHubOperation,
>)
    ensures
        r.deep_view() == operation_for(item@, github_issues.deep_view()),
{
    match (item.is_checked, item.issue_number) {
        (false, None) => Some(GitHubOperation::CreateIssue { title: item.text.clone() }),
        (true, Some(number)) => {
            match find_issue(github_issues, number) {
                Some(issue) => {
                    match issue.state {
                        IssueState::Open => Some(GitHubOperation::CloseIssue { number }),
                        IssueState::Closed => None,
                    }
                },
                None => None,
            }
        },
        _ => None,
    }
}

/// Derives, from the whole checklist and the known remote issues, the
/// operations to apply remotely, in checklist order.
pub fn calculate_github_operations(todo_items: &[TodoItem], github_issues: &[GitHubIssue]) -> (ops:
    Vec<(TodoItem, GitHubOperation)>)
    ensures
        ops.deep_view() == planned_operations(todo_items.deep_view(), github_issues.deep_view()),
{
    let ghost items = todo_items.deep_view();
    let ghost issues = github_issues.deep_view();
    let mut ops: Vec<(TodoItem, GitHubOperation)> = Vec::new();
    let mut at: usize = 0;
    assert(ops.deep_view() =~= planned_operations(items.take(0), issues));
    while at < todo_items.len()
        invariant
            at <= todo_items.len(),
            items == todo_items.deep_view(),
            issues == github_issues.deep_view(),
            ops.deep_view() == planned_operations(items.take(at as int), issues),
        decreases todo_items.len() - at,
    {
        let todo = &todo_items[at];
        let ghost before = ops.deep_view();
        assert(items.take(at as int + 1).drop_last() == items.take(at as int));
        assert(items.take(at as int + 1).last() == todo@);
        match operation_for_item(todo, github_issues) {
            Some(operation) => {
                ops.push((todo.clone(), operation));
                assert(ops.deep_view() =~= before.push((todo@, operation@)));
            },
            None => {},
        }
        at += 1;
    }
    assert(items.take(at as int) == items);
    ops
}

/// What is recorded for an item once the attempt to create its issue has
/// come back: the new issue's number beside the item, or the failure.
pub fn record_created<E>(todo_item: &TodoItem, created: Result<u64, E>) -> (r: Result<
    (TodoItem, Option<u64>),
    E,
>)
    ensures
        match created {
            Ok(number) => r matches Ok(update) && update.0@ == todo_item@ && update.1 == Some(
                number,
            ),
            Err(error) => r matches Err(e) && e == error,
        },
{
    match created {
        Ok(number) => Ok((todo_item.clone(), Some(number))),
        Err(error) => Err(error),
    }
}

/// What is recorded for an item once the attempt to close its issue has
/// come back: no number beside the item, or the failure.
pub fn record_closed<E>(todo_item: &TodoItem, closed: Result<(), E>) -> (r: Result<
    (TodoItem, Option<u64>),
    E,
>)
    ensures
        match closed {
            Ok(_) => r matches Ok(update) && update.0@ == todo_item@ && update.1 is None,
            Err(error) => r matches Err(e) && e == error,
        },
{
    match closed {
        Ok(_) => Ok((todo_item.clone(), None)),
        Err(error) => Err(error),
    }
}

/// Whether `recorded` is what applying `operation` with success may leave
/// beside its item: after a creation, a number that `issue_creator` may
/// return for the title; after a closure that `issue_closer` may report as
/// done, nothing.
pub open spec fn applied<F, G, E>(
    issue_creator: F,
    issue_closer: G,
    operation: GitHubOperation,
    recorded: Option<u64>,
) -> bool where F: Fn(&str) -> Result<u64, E>, G: Fn(u64) -> Result<(), E> {
    match operation {
        GitHubOperation::CreateIssue { title } => recorded matches Some(number) && exists|
            given: &str,
        |
            given@ == title@ && call_ensures(issue_creator, (given,), Ok::<u64, E>(number)),
        GitHubOperation::CloseIssue { number } => recorded is None && exists|
            outcome: Result<(), E>,
        |
            outcome is Ok && call_ensures(issue_closer, (number,), outcome),
    }
}

/// Whether `error` is a failure that applying `operation` may end in.
pub open spec fn refused<F, G, E>(
    issue_creator: F,
    issue_closer: G,
    operation: GitHubOperation,
    error: E,
) -> bool where F: Fn(&str) -> Result<u64, E>, G: Fn(u64) -> Result<(), E> {
    match operation {
        GitHubOperation::CreateIssue { title } => exists|given: &str|
            given@ == title@ && call_ensures(issue_creator, (given,), Err::<u64, E>(error)),
        GitHubOperation::CloseIssue { number } => call_ensures(
            issue_closer,
            (number,),
            Err::<(), E>(error),
        ),
    }
}

/// Whether applying `operation` may succeed.
pub open spec fn may_succeed<F, G, E>(
    issue_creator: F,
    issue_closer: G,
    operation: GitHubOperation,
) -> bool where F: Fn(&str) -> Result<u64, E>, G: Fn(u64) -> Result<(), E> {
    exists|recorded: Option<u64>| applied(issue_creator, issue_closer, operation, recorded)
}

/// Whether a batch may end in `error` at its operation `k`: every earlier
/// operation may succeed, and operation `k` may fail so.
pub open spec fn fails_at<F, G, E>(
    issue_creator: F,
    issue_closer: G,
    operations: Seq<(TodoItem, GitHubOperation)>,
    k: int,
    error: E,
) -> bool where F: Fn(&str) -> Result<u64, E>, G: Fn(u64) -> Result<(), E> {
    &&& 0 <= k < operations.len()
    &&& refused(issue_creator, issue_closer, operations[k].1, error)
    &&& forall|j: int|
        0 <= j < k ==> may_succeed(issue_creator, issue_closer, (#[trigger] operations[j]).1)
}

/// Whether `operation` may be handed to the two capabilities.
pub open spec fn applicable<F, G, E>(
    issue_creator: F,
    issue_closer: G,
    operation: GitHubOperation,
) -> bool where F: Fn(&str) -> Result<u64, E>, G: Fn(u64) -> Result<(), E> {
    match operation {
        GitHubOperation::CreateIssue { title } => forall|given: &str|
            given@ == title@ ==> call_requires(issue_creator, (given,)),
        GitHubOperation::CloseIssue { number } => call_requires(issue_closer, (number,)),
    }
}

/// Applies the operations in order through `issue_creator` and
/// `issue_closer` and returns, for each, its item with what to record. The
/// first failure ends the batch and is returned; what was applied before it
/// stays applied.
pub fn calculate_todo_updates<F, G, E>(
    github_operations: &[(TodoItem, GitHubOperation)],
    issue_creator: F,
    issue_closer: G,
) -> (r: Result<Vec<(TodoItem, Option<u64>)>, E>) where
    F: Fn(&str) -> Result<u64, E>,
    G: Fn(u64) -> Result<(), E>,

    requires
        forall|i: int|
            0 <= i < github_operations.len() ==> applicable(
                issue_creator,
                issue_closer,
                (#[trigger] github_operations[i]).1,
            ),
    ensures
        r matches Ok(updates) ==> {
            &&& updates.len() == github_operations.len()
            &&& forall|i: int|
                0 <= i < updates.len() ==> {
                    &&& (#[trigger] updates[i]).0@ == github_operations[i].0@
                    &&& applied(issue_creator, issue_closer, github_operations[i].1, updates[i].1)
                }
        },
        r matches Err(error) ==> exists|k: int| #[trigger]
            fails_at(issue_creator, issue_closer, github_operations@, k, error),
{
    let mut updates: Vec<(TodoItem, Option<u64>)> = Vec::new();
    let mut at: usize = 0;
    while at < github_operations.len()
        invariant
            at <= github_operations.len(),
            updates.len() == at,
            forall|i: int|
                0 <= i < github_operations.len() ==> applicable(
                    issue_creator,
                    issue_closer,
                    (#[trigger] github_operations[i]).1,
                ),
            forall|i: int|
                0 <= i < at ==> {
                    &&& (#[trigger] updates[i]).0@ == github_operations[i].0@
                    &&& applied(
                        issue_creator,
                        issue_closer,
                        github_operations[i].1,
                        updates[i].1,
                    )
                },
        decreases github_operations.len() - at,
    {
        let entry = &github_operations[at];
        let step = match &entry.1 {
            GitHubOperation::CreateIssue { title } => {
                let given = title.as_str();
                let created = issue_creator(given);
                let step = record_created(&entry.0, created);
                assert(given@ == title@ && call_ensures(issue_creator, (given,), created));
                assert(match step {
                    Ok(update) => applied(issue_creator, issue_closer, entry.1, update.1),
                    Err(error) => refused(issue_creator, issue_closer, entry.1, error),
                });
                step
            },
            GitHubOperation::CloseIssue { number } => {
                let closed = issue_closer(*number);
                let step = record_closed(&entry.0, closed);
                assert(call_ensures(issue_closer, (*number,), closed));
                assert(match step {
                    Ok(update) => applied(issue_creator, issue_closer, entry.1, update.1),
                    Err(error) => refused(issue_creator, issue_closer, entry.1, error),
                });
                step
            },
        };
        match step {
            Ok(update) => {
                updates.push(update);
            },
            Err(error) => {
                assert forall|j: int| 0 <= j < at implies may_succeed(
                    issue_creator,
                    issue_closer,
                    (#[trigger] github_operations@[j]).1,
                ) by {
                    assert(applied(
                        issue_creator,
                        issue_closer,
                        github_operations@[j].1,
                        updates[j].1,
                    ));
                }
                let out: Result<Vec<(TodoItem, Option<u64>)>, E> = Err(error);
                assert(fails_at(
                    issue_creator,
                    issue_closer,
                    github_operations@,
                    at as int,
                    out->Err_0,
                ));
                return out;
            },
        }
        at += 1;
    }
    Ok(updates)
}

} // verus!
