//! What holds of every push and every pull.

use vstd::prelude::*;
use crate::github::issues::{
    distinct_numbers,
    first_numbered,
    last_numbered,
    GitHubIssueView,
    IssueState,
};
use crate::github::pull::{
    closed_remotely,
    discovered,
    is_tracked,
    item_for,
    refreshed,
    refreshed_all,
    synchronized,
    tracks,
};
use crate::github::push::{
    operation_for,
    operation_sources,
    planned_operations,
    GitHubOperationView,
};
use crate::todo::TodoItemView;

verus! {

/// What `first_numbered` finds is an issue of the list that carries the
/// number; where it finds nothing, no issue of the list carries the number.
pub proof fn lemma_first_numbered(issues: Seq<GitHubIssueView>, number: u64)
    ensures
        first_numbered(issues, number) matches Some(issue) ==> issue.number == number
            && issues.contains(issue),
        first_numbered(issues, number) is None ==> forall|i: int|
            0 <= i < issues.len() ==> (#[trigger] issues[i]).number != number,
    decreases issues.len(),
{
    if issues.len() == 0 {
    } else if issues[0].number == number {
        assert(issues[0] == issues[0]);
    } else {
        let rest = issues.drop_first();
        lemma_first_numbered(rest, number);
        match first_numbered(rest, number) {
            Some(issue) => {
                let i = choose|i: int| 0 <= i < rest.len() && rest[i] == issue;
                assert(issues[i + 1] == issue);
            },
            None => {
                assert forall|i: int| 0 <= i < issues.len() implies (#[trigger] issues[i]).number
                    != number by {
                    if i > 0 {
                        assert(rest[i - 1] == issues[i]);
                    }
                }
            },
        }
    }
}

/// Where no number occurs twice, two issues of the list with one number
/// are one issue.
pub proof fn lemma_number_names_one_issue(
    issues: Seq<GitHubIssueView>,
    one: GitHubIssueView,
    other: GitHubIssueView,
)
    requires
        distinct_numbers(issues),
        issues.contains(one),
        issues.contains(other),
        one.number == other.number,
    ensures
        one == other,
{
    let i = choose|i: int| 0 <= i < issues.len() && issues[i] == one;
    let j = choose|j: int| 0 <= j < issues.len() && issues[j] == other;
    if i < j {
        assert(issues[i].number != issues[j].number);
    } else if j < i {
        assert(issues[j].number != issues[i].number);
    }
}

/// Two listings of one set of issues, none of them with a number twice,
/// find the same issue under every number.
pub proof fn lemma_first_numbered_of_set(
    known: Seq<GitHubIssueView>,
    relisted: Seq<GitHubIssueView>,
    number: u64,
)
    requires
        known.to_set() == relisted.to_set(),
        distinct_numbers(known),
        distinct_numbers(relisted),
    ensures
        first_numbered(known, number) == first_numbered(relisted, number),
{
    lemma_first_numbered(known, number);
    lemma_first_numbered(relisted, number);
    match first_numbered(known, number) {
        Some(issue) => {
            assert(known.to_set().contains(issue));
            assert(relisted.to_set().contains(issue));
            assert(relisted.contains(issue));
            let j = choose|j: int| 0 <= j < relisted.len() && relisted[j] == issue;
            assert(relisted[j].number == number);
            let other = first_numbered(relisted, number)->Some_0;
            lemma_number_names_one_issue(relisted, issue, other);
        },
        None => {
            if first_numbered(relisted, number) is Some {
                let other = first_numbered(relisted, number)->Some_0;
                assert(relisted.to_set().contains(other));
                assert(known.to_set().contains(other));
                let i = choose|i: int| 0 <= i < known.len() && known[i] == other;
                assert(known[i].number == number);
            }
        },
    }
}

/// A push planned twice against an unchanged set of remote issues gives the
/// same operations both times, however the set is listed.
pub proof fn push_repeats_on_unchanged_issues(
    items: Seq<TodoItemView>,
    known: Seq<GitHubIssueView>,
    relisted: Seq<GitHubIssueView>,
)
    requires
        known.to_set() == relisted.to_set(),
        distinct_numbers(known),
        distinct_numbers(relisted),
    ensures
        planned_operations(items, known) == planned_operations(items, relisted),
    decreases items.len(),
{
    if items.len() > 0 {
        push_repeats_on_unchanged_issues(items.drop_last(), known, relisted);
        if let Some(number) = items.last().issue_number {
            lemma_first_numbered_of_set(known, relisted, number);
        }
    }
}

/// How the planned operations line up with the checklist: there is one
/// source per operation, the sources rise strictly, each operation stands
/// beside the item at its source and is the one that item calls for, and
/// every item that calls for an operation is the source of one.
pub proof fn lemma_operation_sources(items: Seq<TodoItemView>, issues: Seq<GitHubIssueView>)
    ensures
        operation_sources(items, issues).len() == planned_operations(items, issues).len(),
        forall|k: int|
            0 <= k < operation_sources(items, issues).len() ==> {
                let i = #[trigger] operation_sources(items, issues)[k];
                &&& 0 <= i < items.len()
                &&& operation_for(items[i], issues) is Some
                &&& planned_operations(items, issues)[k] == (
                    items[i],
                    operation_for(items[i], issues)->Some_0,
                )
            },
        forall|k: int, l: int|
            0 <= k < l < operation_sources(items, issues).len() ==> operation_sources(
                items,
                issues,
            )[k] < operation_sources(items, issues)[l],
        forall|i: int|
            0 <= i < items.len() && operation_for(#[trigger] items[i], issues) is Some
                ==> operation_sources(items, issues).contains(i),
    decreases items.len(),
{
    let sources = operation_sources(items, issues);
    if items.len() > 0 {
        let shorter = items.drop_last();
        let earlier = operation_sources(shorter, issues);
        lemma_operation_sources(shorter, issues);
        assert forall|k: int| 0 <= k < sources.len() implies {
            let i = #[trigger] sources[k];
            &&& 0 <= i < items.len()
            &&& operation_for(items[i], issues) is Some
            &&& planned_operations(items, issues)[k] == (
                items[i],
                operation_for(items[i], issues)->Some_0,
            )
        } by {
            if k < earlier.len() {
                assert(sources[k] == earlier[k]);
                assert(shorter[earlier[k]] == items[earlier[k]]);
            }
        }
        assert forall|k: int, l: int| 0 <= k < l < sources.len() implies sources[k] < sources[l] by {
            assert(sources[k] == earlier[k]);
            if l < earlier.len() {
                assert(sources[l] == earlier[l]);
            }
        }
        assert forall|i: int|
            0 <= i < items.len() && operation_for(
                #[trigger] items[i],
                issues,
            ) is Some implies sources.contains(i) by {
            if i < shorter.len() {
                assert(shorter[i] == items[i]);
                assert(earlier.contains(i));
                let k = choose|k: int| 0 <= k < earlier.len() && earlier[k] == i;
                assert(sources[k] == i);
            } else {
                assert(sources[sources.len() - 1] == i);
            }
        }
    }
}

/// Every planned creation comes from an item that is neither ticked nor
/// tracked, and carries that item's text as its title.
pub proof fn creations_come_from_new_items(
    items: Seq<TodoItemView>,
    issues: Seq<GitHubIssueView>,
    k: int,
)
    requires
        0 <= k < planned_operations(items, issues).len(),
        planned_operations(items, issues)[k].1 is CreateIssue,
    ensures
        ({
            let item = planned_operations(items, issues)[k].0;
            &&& 0 <= operation_sources(items, issues)[k] < items.len()
            &&& item == items[operation_sources(items, issues)[k]]
            &&& !item.is_checked
            &&& item.issue_number is None
            &&& planned_operations(items, issues)[k].1 == (GitHubOperationView::CreateIssue {
                title: item.text,
            })
        }),
{
    lemma_operation_sources(items, issues);
    let i = operation_sources(items, issues)[k];
    assert(operation_for(items[i], issues) is Some);
}

/// Whether some issue of `issues` carries `number` and is open.
pub open spec fn has_open_issue(issues: Seq<GitHubIssueView>, number: u64) -> bool {
    exists|j: int|
        0 <= j < issues.len() && (#[trigger] issues[j]).number == number && issues[j].state
            == IssueState::Open
}

/// Where no number occurs twice, an open issue carries `number` exactly
/// when the issue found under `number` is open.
pub proof fn lemma_open_issue_is_found(issues: Seq<GitHubIssueView>, number: u64)
    requires
        distinct_numbers(issues),
    ensures
        has_open_issue(issues, number) <==> (first_numbered(issues, number) matches Some(issue)
            && issue.state == IssueState::Open),
{
    lemma_first_numbered(issues, number);
    let found = first_numbered(issues, number);
    if has_open_issue(issues, number) {
        let j = choose|j: int|
            0 <= j < issues.len() && (#[trigger] issues[j]).number == number && issues[j].state
                == IssueState::Open;
        assert(issues.contains(issues[j]));
        lemma_number_names_one_issue(issues, found->Some_0, issues[j]);
    } else if found is Some {
        let first = choose|f: int| 0 <= f < issues.len() && issues[f] == found->Some_0;
        assert(issues[first].number == number);
    }
}

/// Whether, among the operations planned for `items`, exactly one comes
/// from the item at `i`, and that one is `operation` beside the item.
pub open spec fn yields_only(
    items: Seq<TodoItemView>,
    issues: Seq<GitHubIssueView>,
    i: int,
    operation: GitHubOperationView,
) -> bool {
    let operations = planned_operations(items, issues);
    let sources = operation_sources(items, issues);
    exists|k: int|
        {
            &&& 0 <= k < operations.len()
            &&& #[trigger] sources[k] == i
            &&& operations[k] == (items[i], operation)
            &&& forall|l: int| 0 <= l < operations.len() && #[trigger] sources[l] == i ==> l == k
        }
}

/// Whether none of the operations planned for `items` comes from the item
/// at `i`.
pub open spec fn yields_nothing(
    items: Seq<TodoItemView>,
    issues: Seq<GitHubIssueView>,
    i: int,
) -> bool {
    forall|k: int|
        0 <= k < planned_operations(items, issues).len() ==> #[trigger] operation_sources(
            items,
            issues,
        )[k] != i
}

/// An item yields exactly the operation that it calls for, or nothing
/// where it calls for none.
pub proof fn lemma_item_yields(items: Seq<TodoItemView>, issues: Seq<GitHubIssueView>, i: int)
    requires
        0 <= i < items.len(),
    ensures
        match operation_for(items[i], issues) {
            Some(operation) => yields_only(items, issues, i, operation),
            None => yields_nothing(items, issues, i),
        },
{
    lemma_operation_sources(items, issues);
    let sources = operation_sources(items, issues);
    if operation_for(items[i], issues) is Some {
        assert(sources.contains(i));
        let k = choose|k: int| 0 <= k < sources.len() && sources[k] == i;
        assert forall|l: int| 0 <= l < sources.len() && #[trigger] sources[l] == i implies l
            == k by {
            if l < k {
                assert(sources[l] < sources[k]);
            } else if k < l {
                assert(sources[k] < sources[l]);
            }
        }
    }
}

/// An item that is neither ticked nor tracked yields exactly one operation,
/// and that operation creates an issue under the item's text.
pub proof fn new_item_yields_one_creation(
    items: Seq<TodoItemView>,
    issues: Seq<GitHubIssueView>,
    i: int,
)
    requires
        0 <= i < items.len(),
        !items[i].is_checked,
        items[i].issue_number is None,
    ensures
        yields_only(items, issues, i, GitHubOperationView::CreateIssue { title: items[i].text }),
{
    lemma_item_yields(items, issues, i);
}

/// A ticked item that tracks an issue yields exactly one operation while
/// that issue is open, and that operation closes the issue; where the issue
/// is closed already, or not among the remote issues, the item yields none.
pub proof fn ticked_item_closes_open_issue(
    items: Seq<TodoItemView>,
    issues: Seq<GitHubIssueView>,
    i: int,
    number: u64,
)
    requires
        distinct_numbers(issues),
        0 <= i < items.len(),
        items[i].is_checked,
        items[i].issue_number == Some(number),
    ensures
        has_open_issue(issues, number) ==> yields_only(
            items,
            issues,
            i,
            GitHubOperationView::CloseIssue { number },
        ),
        !has_open_issue(issues, number) ==> yields_nothing(items, issues, i),
{
    lemma_open_issue_is_found(issues, number);
    lemma_item_yields(items, issues, i);
}

/// Refreshing keeps what an item is recognised by: its text and its issue
/// number.
pub proof fn lemma_refreshed_is_tracked(
    items: Seq<TodoItemView>,
    issues: Seq<GitHubIssueView>,
    issue: GitHubIssueView,
)
    ensures
        is_tracked(refreshed_all(items, issues), issue) == is_tracked(items, issue),
{
    let updated = refreshed_all(items, issues);
    if is_tracked(items, issue) {
        let i = choose|i: int| 0 <= i < items.len() && tracks(#[trigger] items[i], issue);
        assert(tracks(updated[i], issue));
    }
    if is_tracked(updated, issue) {
        let i = choose|i: int| 0 <= i < updated.len() && tracks(#[trigger] updated[i], issue);
        assert(tracks(items[i], issue));
    }
}

/// Every discovered item stands for an open issue that no item of the
/// checklist stands for.
pub proof fn lemma_discovered(items: Seq<TodoItemView>, issues: Seq<GitHubIssueView>)
    ensures
        forall|k: int|
            0 <= k < discovered(items, issues).len() ==> exists|j: int|
                {
                    &&& 0 <= j < issues.len()
                    &&& (#[trigger] issues[j]).state == IssueState::Open
                    &&& !is_tracked(items, issues[j])
                    &&& #[trigger] discovered(items, issues)[k] == item_for(issues[j])
                },
    decreases issues.len(),
{
    if issues.len() > 0 {
        let shorter = issues.drop_last();
        lemma_discovered(items, shorter);
        assert forall|k: int| 0 <= k < discovered(items, issues).len() implies exists|j: int|
            {
                &&& 0 <= j < issues.len()
                &&& (#[trigger] issues[j]).state == IssueState::Open
                &&& !is_tracked(items, issues[j])
                &&& #[trigger] discovered(items, issues)[k] == item_for(issues[j])
            } by {
            if k < discovered(items, shorter).len() {
                let j = choose|j: int|
                    {
                        &&& 0 <= j < shorter.len()
                        &&& (#[trigger] shorter[j]).state == IssueState::Open
                        &&& !is_tracked(items, shorter[j])
                        &&& #[trigger] discovered(items, shorter)[k] == item_for(shorter[j])
                    };
                assert(issues[j] == shorter[j]);
                assert(discovered(items, issues)[k] == discovered(items, shorter)[k]);
            } else {
                let j = issues.len() - 1;
                assert(issues[j].state == IssueState::Open);
            }
        }
    }
}

/// A pull keeps every local item in its place with its text and its issue
/// number, never unticks one, and adds rows for open issues only: a closed
/// issue that no local item stands for adds nothing.
pub proof fn pull_keeps_ticks_and_adds_open_issues_only(
    items: Seq<TodoItemView>,
    issues: Seq<GitHubIssueView>,
)
    ensures
        ({
            let result = synchronized(items, issues);
            &&& result.len() >= items.len()
            &&& forall|i: int|
                0 <= i < items.len() ==> {
                    &&& (#[trigger] result[i]).text == items[i].text
                    &&& result[i].issue_number == items[i].issue_number
                    &&& items[i].is_checked ==> result[i].is_checked
                }
            &&& forall|k: int|
                items.len() <= k < result.len() ==> exists|j: int|
                    {
                        &&& 0 <= j < issues.len()
                        &&& (#[trigger] issues[j]).state == IssueState::Open
                        &&& !is_tracked(items, issues[j])
                        &&& #[trigger] result[k] == item_for(issues[j])
                    }
        }),
{
    let updated = refreshed_all(items, issues);
    let result = synchronized(items, issues);
    lemma_discovered(updated, issues);
    assert forall|k: int| items.len() <= k < result.len() implies exists|j: int|
        {
            &&& 0 <= j < issues.len()
            &&& (#[trigger] issues[j]).state == IssueState::Open
            &&& !is_tracked(items, issues[j])
            &&& #[trigger] result[k] == item_for(issues[j])
        } by {
        let found = discovered(updated, issues);
        let at = k - items.len();
        assert(result[k] == found[at]);
        let j = choose|j: int|
            {
                &&& 0 <= j < issues.len()
                &&& (#[trigger] issues[j]).state == IssueState::Open
                &&& !is_tracked(updated, issues[j])
                &&& #[trigger] found[at] == item_for(issues[j])
            };
        lemma_refreshed_is_tracked(items, issues, issues[j]);
    }
}

/// A pull into a checklist that already stands for every open issue, by
/// number or by trimmed title, adds no row.
pub proof fn pull_adds_nothing_when_all_tracked(
    items: Seq<TodoItemView>,
    issues: Seq<GitHubIssueView>,
)
    requires
        forall|j: int|
            0 <= j < issues.len() && (#[trigger] issues[j]).state == IssueState::Open
                ==> is_tracked(items, issues[j]),
    ensures
        synchronized(items, issues) == refreshed_all(items, issues),
        synchronized(items, issues).len() == items.len(),
{
    let updated = refreshed_all(items, issues);
    lemma_discovered(updated, issues);
    if discovered(updated, issues).len() > 0 {
        let j = choose|j: int|
            {
                &&& 0 <= j < issues.len()
                &&& (#[trigger] issues[j]).state == IssueState::Open
                &&& !is_tracked(updated, issues[j])
                &&& #[trigger] discovered(updated, issues)[0] == item_for(issues[j])
            };
        lemma_refreshed_is_tracked(items, issues, issues[j]);
    }
    assert(synchronized(items, issues) =~= updated);
}

/// Where no number occurs twice, the issue found last under the number of
/// an issue of the list is that issue.
pub proof fn lemma_last_numbered_of_member(issues: Seq<GitHubIssueView>, j: int)
    requires
        distinct_numbers(issues),
        0 <= j < issues.len(),
    ensures
        last_numbered(issues, issues[j].number) == Some(issues[j]),
    decreases issues.len(),
{
    if j < issues.len() - 1 {
        let shorter = issues.drop_last();
        assert(issues[j].number != issues[issues.len() - 1].number);
        assert(shorter[j] == issues[j]);
        assert forall|a: int, b: int| 0 <= a < b < shorter.len() implies (#[trigger] shorter[a]).number
            != (#[trigger] shorter[b]).number by {
            assert(issues[a].number != issues[b].number);
        }
        lemma_last_numbered_of_member(shorter, j);
    }
}

/// Every open issue that no item of the checklist stands for is
/// discovered.
pub proof fn lemma_discovered_is_complete(
    items: Seq<TodoItemView>,
    issues: Seq<GitHubIssueView>,
    j: int,
)
    requires
        0 <= j < issues.len(),
        issues[j].state == IssueState::Open,
        !is_tracked(items, issues[j]),
    ensures
        discovered(items, issues).contains(item_for(issues[j])),
    decreases issues.len(),
{
    let shorter = issues.drop_last();
    let found = discovered(items, issues);
    if j < issues.len() - 1 {
        assert(shorter[j] == issues[j]);
        lemma_discovered_is_complete(items, shorter, j);
        let k = choose|k: int|
            0 <= k < discovered(items, shorter).len() && discovered(items, shorter)[k] == item_for(
                issues[j],
            );
        assert(found[k] == item_for(issues[j]));
    } else {
        assert(found[found.len() - 1] == item_for(issues[j]));
    }
}

/// A second pull against the same remote issues changes nothing, where no
/// two of the issues share a number.
pub proof fn pull_twice_is_pull_once(items: Seq<TodoItemView>, issues: Seq<GitHubIssueView>)
    requires
        distinct_numbers(issues),
    ensures
        synchronized(synchronized(items, issues), issues) == synchronized(items, issues),
{
    let updated = refreshed_all(items, issues);
    let found = discovered(updated, issues);
    let once = synchronized(items, issues);
    lemma_discovered(updated, issues);
    assert forall|j: int|
        0 <= j < issues.len() && (#[trigger] issues[j]).state
            == IssueState::Open implies is_tracked(once, issues[j]) by {
        if is_tracked(updated, issues[j]) {
            let i = choose|i: int| 0 <= i < updated.len() && tracks(#[trigger] updated[i], issues[j]);
            assert(once[i] == updated[i]);
        } else {
            lemma_discovered_is_complete(updated, issues, j);
            let k = choose|k: int| 0 <= k < found.len() && found[k] == item_for(issues[j]);
            assert(once[updated.len() + k] == found[k]);
            assert(tracks(once[updated.len() + k], issues[j]));
        }
    }
    pull_adds_nothing_when_all_tracked(once, issues);
    assert forall|i: int| 0 <= i < once.len() implies refreshed(#[trigger] once[i], issues)
        == once[i] by {
        if i < updated.len() {
            assert(once[i] == refreshed(items[i], issues));
        } else {
            let k = i - updated.len();
            assert(once[i] == found[k]);
            let j = choose|j: int|
                {
                    &&& 0 <= j < issues.len()
                    &&& (#[trigger] issues[j]).state == IssueState::Open
                    &&& !is_tracked(updated, issues[j])
                    &&& #[trigger] found[k] == item_for(issues[j])
                };
            lemma_last_numbered_of_member(issues, j);
            assert(!closed_remotely(Some(issues[j].number), issues));
        }
    }
    assert(refreshed_all(once, issues) =~= once);
}

/// Whether no two items of `items` track the same issue.
pub open spec fn distinct_references(items: Seq<TodoItemView>) -> bool {
    forall|i: int, j: int|
        0 <= i < j < items.len() && (#[trigger] items[i]).issue_number is Some
            ==> items[i].issue_number != (#[trigger] items[j]).issue_number
}

/// A pull invents no second item for an issue: where no two remote issues
/// share a number and no two local items track the same issue, no two
/// items of the result track the same issue.
pub proof fn pull_keeps_references_distinct(
    items: Seq<TodoItemView>,
    issues: Seq<GitHubIssueView>,
)
    requires
        distinct_numbers(issues),
        distinct_references(items),
    ensures
        distinct_references(synchronized(items, issues)),
{
    let updated = refreshed_all(items, issues);
    let found = discovered(updated, issues);
    let result = synchronized(items, issues);
    lemma_discovered(updated, issues);
    assert forall|i: int, j: int|
        0 <= i < j < result.len() && (#[trigger] result[i]).issue_number is Some implies result[i].issue_number
        != (#[trigger] result[j]).issue_number by {
        if j < updated.len() {
            assert(result[i].issue_number == items[i].issue_number);
            assert(result[j].issue_number == items[j].issue_number);
        } else {
            let b = j - updated.len();
            assert(result[j] == found[b]);
            let jb = choose|jb: int|
                {
                    &&& 0 <= jb < issues.len()
                    &&& (#[trigger] issues[jb]).state == IssueState::Open
                    &&& !is_tracked(updated, issues[jb])
                    &&& #[trigger] found[b] == item_for(issues[jb])
                };
            if i < updated.len() {
                assert(result[i] == updated[i]);
                assert(!tracks(updated[i], issues[jb]));
            } else {
                let a = i - updated.len();
                assert(result[i] == found[a]);
                lemma_discovered_in_order(updated, issues, a, b);
            }
        }
    }
}

/// Of two discovered items the later one stands for an issue with another
/// number, where no two issues share a number.
pub proof fn lemma_discovered_in_order(
    items: Seq<TodoItemView>,
    issues: Seq<GitHubIssueView>,
    a: int,
    b: int,
)
    requires
        distinct_numbers(issues),
        0 <= a < b < discovered(items, issues).len(),
    ensures
        discovered(items, issues)[a].issue_number != discovered(items, issues)[b].issue_number,
    decreases issues.len(),
{
    let shorter = issues.drop_last();
    let earlier = discovered(items, shorter);
    assert forall|x: int, y: int| 0 <= x < y < shorter.len() implies (#[trigger] shorter[x]).number
        != (#[trigger] shorter[y]).number by {
        assert(issues[x].number != issues[y].number);
    }
    if b < earlier.len() {
        lemma_discovered_in_order(items, shorter, a, b);
    } else {
        lemma_discovered(items, shorter);
        let j = choose|j: int|
            {
                &&& 0 <= j < shorter.len()
                &&& (#[trigger] shorter[j]).state == IssueState::Open
                &&& !is_tracked(items, shorter[j])
                &&& #[trigger] earlier[a] == item_for(shorter[j])
            };
        assert(issues[j].number != issues[issues.len() - 1].number);
    }
}

} // verus!
