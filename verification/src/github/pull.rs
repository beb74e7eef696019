//! From the remote side to the local checklist: ticking items whose issues
//! were closed, and adding items for open issues that the checklist does not
//! know yet.

use std::collections::HashMap;
use vstd::prelude::*;
use crate::github::issues::{last_numbered, GitHubIssue, GitHubIssueView, IssueState};
use crate::json::{json_field, member};
use crate::text::{trimmed, trimmed_eq};
use crate::todo::{TodoItem, TodoItemView};

verus! {

broadcast use vstd::std_specs::hash::group_hash_axioms;

/// The number of issues asked for with each page.
pub const ISSUES_PER_PAGE: u32 = 100;

/// The state that the remote side writes as `name`, if it is one.
pub open spec fn issue_state_named(name: Seq<char>) -> Option<IssueState> {
    if name == "open"@ {
        Some(IssueState::Open)
    } else if name == "closed"@ {
        Some(IssueState::Closed)
    } else {
        None
    }
}

/// The issue that the fields of one entry of an issue listing stand for.
/// An entry stands for an issue when it has a number, a title and a known
/// state, and its `pull_request` field is null or missing; a pull request
/// is no issue.
pub open spec fn issue_from_fields(
    number: Option<u64>,
    title: Option<Seq<char>>,
    state: Option<Seq<char>>,
    pull_request_is_null: bool,
) -> Option<GitHubIssueView> {
    match (number, title, state) {
        (Some(number), Some(title), Some(state)) => match issue_state_named(state) {
            Some(state) => if pull_request_is_null {
                Some(GitHubIssueView { number, title, state })
            } else {
                None
            },
            None => None,
        },
        _ => None,
    }
}

/// The issue that one JSON entry of an issue listing stands for: its
/// fields are what indexing the entry by `number`, `title`, `state` and
/// `pull_request` gives.
pub open spec fn decoded_issue(entry: serde_json::Value) -> Option<GitHubIssueView> {
    issue_from_fields(
        json_field(entry, "number"@).unsigned(),
        json_field(entry, "title"@).text(),
        json_field(entry, "state"@).text(),
        json_field(entry, "pull_request"@) is Null,
    )
}

/// The issues that the entries of an issue listing stand for, in order.
pub open spec fn decoded_issues(entries: Seq<serde_json::Value>) -> Seq<GitHubIssueView>
    decreases entries.len(),
{
    if entries.len() == 0 {
        Seq::empty()
    } else {
        let earlier = decoded_issues(entries.drop_last());
        match decoded_issue(entries.last()) {
            Some(issue) => earlier.push(issue),
            None => earlier,
        }
    }
}

/// Builds the issue that the fields of one entry of an issue listing stand
/// for, if they stand for one.
pub fn issue_from_record(
    number: Option<u64>,
    title: Option<&str>,
    state: Option<&str>,
    pull_request_is_null: bool,
) -> (r: Option<GitHubIssue>)
    ensures
        r.deep_view() == issue_from_fields(
            number,
            title.deep_view(),
            state.deep_view(),
            pull_request_is_null,
        ),
{
    if let (Some(number), Some(title), Some(state)) = (number, title, state) {
        if pull_request_is_null {
            let state = if *state == *"open" {
                IssueState::Open
            } else if *state == *"closed" {
                IssueState::Closed
            } else {
                return None;
            };
            Some(GitHubIssue { number, title: title.to_owned(), state })
        } else {
            None
        }
    } else {
        None
    }
}

/// Reads the issues out of the JSON entries of an issue listing, leaving
/// out pull requests and entries that are not well formed.
pub fn parse_github_issues(issues_json: &[serde_json::Value]) -> (r: Vec<GitHubIssue>)
    ensures
        r.deep_view() == decoded_issues(issues_json@),
{
    let mut issues: Vec<GitHubIssue> = Vec::new();
    let mut at: usize = 0;
    assert(issues.deep_view() =~= decoded_issues(issues_json@.take(0)));
    while at < issues_json.len()
        invariant
            at <= issues_json.len(),
            issues.deep_view() == decoded_issues(issues_json@.take(at as int)),
        decreases issues_json.len() - at,
    {
        let entry = &issues_json[at];
        let ghost before = issues.deep_view();
        assert(issues_json@.take(at as int + 1).drop_last() == issues_json@.take(at as int));
        assert(issues_json@.take(at as int + 1).last() == *entry);
        let found = issue_from_record(
            member(entry, "number").as_u64(),
            member(entry, "title").as_str(),
            member(entry, "state").as_str(),
            member(entry, "pull_request").is_null(),
        );
        if let Some(issue) = found {
            issues.push(issue);
            assert(issues.deep_view() =~= before.push(issue@));
        }
        at += 1;
    }
    assert(issues_json@.take(at as int) == issues_json@);
    issues
}

/// Whether `pages` may be what `issue_fetcher` answers, with success and
/// never with an empty page, to the requests for the pages 1, 2, 3 and so
/// on of the issues of `repo`.
pub open spec fn fetched_pages<F, E>(
    issue_fetcher: F,
    repo: &str,
    token: &str,
    pages: Seq<Vec<serde_json::Value>>,
) -> bool where F: Fn(&str, &str, u32, u32) -> Result<Vec<serde_json::Value>, E> {
    &&& pages.len() <= u32::MAX
    &&& forall|i: int|
        0 <= i < pages.len() ==> {
            &&& (#[trigger] pages[i]).len() > 0
            &&& call_ensures(
                issue_fetcher,
                (repo, token, (i + 1) as u32, ISSUES_PER_PAGE),
                Ok::<Vec<serde_json::Value>, E>(pages[i]),
            )
        }
}

/// The issues that the entries of `pages` stand for, page after page.
pub open spec fn issues_of_pages(pages: Seq<Vec<serde_json::Value>>) -> Seq<GitHubIssueView>
    decreases pages.len(),
{
    if pages.len() == 0 {
        Seq::empty()
    } else {
        issues_of_pages(pages.drop_last()) + decoded_issues(pages.last()@)
    }
}

/// Whether the request for the page after `pages` may be answered by
/// `answer`.
pub open spec fn next_page_answer<F, E>(
    issue_fetcher: F,
    repo: &str,
    token: &str,
    pages: Seq<Vec<serde_json::Value>>,
    answer: Result<Vec<serde_json::Value>, E>,
) -> bool where F: Fn(&str, &str, u32, u32) -> Result<Vec<serde_json::Value>, E> {
    pages.len() < u32::MAX && call_ensures(
        issue_fetcher,
        (repo, token, (pages.len() + 1) as u32, ISSUES_PER_PAGE),
        answer,
    )
}

/// Whether nothing follows `pages`: the request for the next page may come
/// back empty, or there is no page number left to ask for.
pub open spec fn no_page_after<F, E>(
    issue_fetcher: F,
    repo: &str,
    token: &str,
    pages: Seq<Vec<serde_json::Value>>,
) -> bool where F: Fn(&str, &str, u32, u32) -> Result<Vec<serde_json::Value>, E> {
    pages.len() == u32::MAX || exists|last: Vec<serde_json::Value>|
        last.len() == 0 && #[trigger] next_page_answer(
            issue_fetcher,
            repo,
            token,
            pages,
            Ok::<Vec<serde_json::Value>, E>(last),
        )
}

/// Whether fetching may end with the issues `issues`: they are what some
/// run of non-empty pages holds, and nothing follows those pages.
pub open spec fn fetch_ends_with<F, E>(
    issue_fetcher: F,
    repo: &str,
    token: &str,
    issues: Seq<GitHubIssueView>,
) -> bool where F: Fn(&str, &str, u32, u32) -> Result<Vec<serde_json::Value>, E> {
    exists|pages: Seq<Vec<serde_json::Value>>|
        {
            &&& #[trigger] fetched_pages(issue_fetcher, repo, token, pages)
            &&& issues == issues_of_pages(pages)
            &&& no_page_after(issue_fetcher, repo, token, pages)
        }
}

proof fn lemma_fetch_ends<F, E>(
    issue_fetcher: F,
    repo: &str,
    token: &str,
    pages: Seq<Vec<serde_json::Value>>,
    issues: Seq<GitHubIssueView>,
) where F: Fn(&str, &str, u32, u32) -> Result<Vec<serde_json::Value>, E>
    requires
        fetched_pages(issue_fetcher, repo, token, pages),
        issues == issues_of_pages(pages),
        no_page_after(issue_fetcher, repo, token, pages),
    ensures
        fetch_ends_with(issue_fetcher, repo, token, issues),
{
}

/// Whether fetching may fail with `error`: after some run of non-empty
/// pages, the request for the next page may be answered by `error`.
pub open spec fn fetch_fails_with<F, E>(
    issue_fetcher: F,
    repo: &str,
    token: &str,
    error: E,
) -> bool where F: Fn(&str, &str, u32, u32) -> Result<Vec<serde_json::Value>, E> {
    exists|pages: Seq<Vec<serde_json::Value>>|
        {
            &&& #[trigger] fetched_pages(issue_fetcher, repo, token, pages)
            &&& next_page_answer(
                issue_fetcher,
                repo,
                token,
                pages,
                Err::<Vec<serde_json::Value>, E>(error),
            )
        }
}

/// Fetches all issues of `repo` page by page through `issue_fetcher`,
/// starting at page 1 and asking for `ISSUES_PER_PAGE` entries each time,
/// until a page comes back empty. The first failure ends the fetch and is
/// returned.
pub fn fetch_github_issues<F, E>(repo: &str, token: &str, issue_fetcher: F) -> (r: Result<
    Vec<GitHubIssue>,
    E,
>) where F: Fn(&str, &str, u32, u32) -> Result<Vec<serde_json::Value>, E>
    requires
        forall|page: u32| call_requires(issue_fetcher, (repo, token, page, ISSUES_PER_PAGE)),
    ensures
        r matches Ok(issues) ==> fetch_ends_with(issue_fetcher, repo, token, issues.deep_view()),
        r matches Err(error) ==> fetch_fails_with(issue_fetcher, repo, token, error),
{
    let mut all_issues: Vec<GitHubIssue> = Vec::new();
    let mut page: u32 = 1;
    let ghost mut pages: Seq<Vec<serde_json::Value>> = Seq::empty();
    assert(all_issues.deep_view() =~= issues_of_pages(pages));
    loop
        invariant
            forall|page: u32| call_requires(issue_fetcher, (repo, token, page, ISSUES_PER_PAGE)),
            page == pages.len() + 1,
            fetched_pages(issue_fetcher, repo, token, pages),
            all_issues.deep_view() == issues_of_pages(pages),
        decreases u32::MAX - page,
    {
        let answer = issue_fetcher(repo, token, page, ISSUES_PER_PAGE);
        assert(next_page_answer(issue_fetcher, repo, token, pages, answer));
        let issues_json = match answer {
            Ok(issues_json) => issues_json,
            Err(error) => {
                let out: Result<Vec<GitHubIssue>, E> = Err(error);
                assert(fetch_fails_with(issue_fetcher, repo, token, out->Err_0));
                return out;
            },
        };
        assert(next_page_answer(
            issue_fetcher,
            repo,
            token,
            pages,
            Ok::<Vec<serde_json::Value>, E>(issues_json),
        ));
        if issues_json.len() == 0 {
            assert(no_page_after(issue_fetcher, repo, token, pages));
            proof {
                lemma_fetch_ends(issue_fetcher, repo, token, pages, all_issues.deep_view());
            }
            return Ok(all_issues);
        }
        let ghost before = all_issues.deep_view();
        let mut parsed_issues = parse_github_issues(issues_json.as_slice());
        let ghost parsed = parsed_issues.deep_view();
        all_issues.append(&mut parsed_issues);
        proof {
            let longer = pages.push(issues_json);
            assert(longer.drop_last() == pages);
            assert(all_issues.deep_view() =~= before + parsed);
            assert forall|i: int| 0 <= i < longer.len() implies {
                &&& (#[trigger] longer[i]).len() > 0
                &&& call_ensures(
                    issue_fetcher,
                    (repo, token, (i + 1) as u32, ISSUES_PER_PAGE),
                    Ok::<Vec<serde_json::Value>, E>(longer[i]),
                )
            } by {
                if i < pages.len() {
                    assert(longer[i] == pages[i]);
                }
            }
            pages = longer;
        }
        if page == u32::MAX {
            proof {
                lemma_fetch_ends(issue_fetcher, repo, token, pages, all_issues.deep_view());
            }
            return Ok(all_issues);
        }
        page += 1;
    }
}

/// Whether the issue that carries `number` is closed on the remote side.
/// Where several issues carry the number, the last of them counts; where
/// none does, or there is no number, nothing is closed.
pub open spec fn closed_remotely(number: Option<u64>, issues: Seq<GitHubIssueView>) -> bool {
    match number {
        Some(number) => match last_numbered(issues, number) {
            Some(issue) => issue.state == IssueState::Closed,
            None => false,
        },
        None => false,
    }
}

/// A checklist item as the remote side leaves it: ticked if it was not and
/// the issue it tracks is closed, unchanged otherwise.
pub open spec fn refreshed(item: TodoItemView, issues: Seq<GitHubIssueView>) -> TodoItemView {
    if closed_remotely(item.issue_number, issues) && !item.is_checked {
        TodoItemView { is_checked: true, ..item }
    } else {
        item
    }
}

/// Whether `item` stands for `issue`: it carries the issue's number, or its
/// text is the issue's title once both are trimmed.
pub open spec fn tracks(item: TodoItemView, issue: GitHubIssueView) -> bool {
    item.issue_number == Some(issue.number) || trimmed(item.text) == trimmed(issue.title)
}

/// Whether some item of `items` stands for `issue`.
pub open spec fn is_tracked(items: Seq<TodoItemView>, issue: GitHubIssueView) -> bool {
    exists|i: int| 0 <= i < items.len() && tracks(#[trigger] items[i], issue)
}

/// The unticked item that enters a checklist for `issue`.
pub open spec fn item_for(issue: GitHubIssueView) -> TodoItemView {
    TodoItemView { text: issue.title, is_checked: false, issue_number: Some(issue.number) }
}

/// The items that enter the checklist `items`: one for each open issue that
/// no item of `items` stands for, in the order of `issues`.
pub open spec fn discovered(items: Seq<TodoItemView>, issues: Seq<GitHubIssueView>) -> Seq<
    TodoItemView,
>
    decreases issues.len(),
{
    if issues.len() == 0 {
        Seq::empty()
    } else {
        let earlier = discovered(items, issues.drop_last());
        let issue = issues.last();
        if issue.state == IssueState::Open && !is_tracked(items, issue) {
            earlier.push(item_for(issue))
        } else {
            earlier
        }
    }
}

/// Every item of `items` as the remote side leaves it.
pub open spec fn refreshed_all(items: Seq<TodoItemView>, issues: Seq<GitHubIssueView>) -> Seq<
    TodoItemView,
> {
    items.map_values(|item: TodoItemView| refreshed(item, issues))
}

/// The checklist after a pull: the local items, each refreshed in place,
/// followed by the newly discovered ones.
pub open spec fn synchronized(items: Seq<TodoItemView>, issues: Seq<GitHubIssueView>) -> Seq<
    TodoItemView,
> {
    let updated = refreshed_all(items, issues);
    updated + discovered(updated, issues)
}

/// Whether `by_number` finds, under each number, the last issue of `issues`
/// that carries it.
pub open spec fn indexes(by_number: Map<u64, &GitHubIssue>, issues: Seq<GitHubIssueView>) -> bool {
    forall|number: u64|
        match #[trigger] last_numbered(issues, number) {
            Some(issue) => by_number.contains_key(number) && by_number[number]@ == issue,
            None => !by_number.contains_key(number),
        }
}

fn index_by_number<'a>(github_issues: &'a [GitHubIssue]) -> (by_number: HashMap<
    u64,
    &'a GitHubIssue,
>)
    ensures
        indexes(by_number@, github_issues.deep_view()),
{
    let ghost issues = github_issues.deep_view();
    let mut by_number: HashMap<u64, &GitHubIssue> = HashMap::new();
    let mut at: usize = 0;
    while at < github_issues.len()
        invariant
            at <= github_issues.len(),
            issues == github_issues.deep_view(),
            indexes(by_number@, issues.take(at as int)),
        decreases github_issues.len() - at,
    {
        let issue = &github_issues[at];
        by_number.insert(issue.number, issue);
        proof {
            let next = issues.take(at as int + 1);
            assert(next.drop_last() == issues.take(at as int));
            assert(next.last() == issue@);
            assert forall|number: u64|
                match #[trigger] last_numbered(next, number) {
                    Some(found) => by_number@.contains_key(number) && by_number@[number]@ == found,
                    None => !by_number@.contains_key(number),
                } by {
                if number != issue.number {
                    assert(last_numbered(next, number) == last_numbered(
                        issues.take(at as int),
                        number,
                    ));
                }
            }
        }
        at += 1;
    }
    assert(issues.take(at as int) == issues);
    by_number
}

fn refresh_item(
    todo_item: &TodoItem,
    by_number: &HashMap<u64, &GitHubIssue>,
    Ghost(issues): Ghost<Seq<GitHubIssueView>>,
) -> (r: TodoItem)
    requires
        indexes(by_number@, issues),
    ensures
        r@ == refreshed(todo_item@, issues),
{
    let closed = match todo_item.issue_number {
        Some(number) => {
            match by_number.get(&number) {
                Some(issue) => match issue.state {
                    IssueState::Closed => true,
                    IssueState::Open => false,
                },
                None => false,
            }
        },
        None => false,
    };
    assert(closed == closed_remotely(todo_item.issue_number, issues));
    if closed && !todo_item.is_checked {
        TodoItem {
            text: todo_item.text.clone(),
            is_checked: true,
            issue_number: todo_item.issue_number,
        }
    } else {
        todo_item.clone()
    }
}

/// Whether some item of `items` stands for `issue`.
fn any_tracks(items: &Vec<TodoItem>, issue: &GitHubIssue) -> (r: bool)
    ensures
        r == is_tracked(items.deep_view(), issue@),
{
    let mut at: usize = 0;
    while at < items.len()
        invariant
            at <= items.len(),
            forall|i: int| 0 <= i < at ==> !tracks(#[trigger] items.deep_view()[i], issue@),
        decreases items.len() - at,
    {
        let item = &items[at];
        assert(items.deep_view()[at as int] == item@);
        let same_number = match item.issue_number {
            Some(number) => number == issue.number,
            None => false,
        };
        if same_number || trimmed_eq(item.text.as_str(), issue.title.as_str()) {
            return true;
        }
        at += 1;
    }
    false
}

/// Brings the local checklist up to date with the fetched remote issues:
/// items whose issue was closed remotely become ticked, and every open issue
/// that no item stands for enters at the end, in the order given.
pub fn synchronize_with_github_issues(
    todo_items: &[TodoItem],
    github_issues: &[GitHubIssue],
) -> (r: Vec<TodoItem>)
    ensures
        r.deep_view() == synchronized(todo_items.deep_view(), github_issues.deep_view()),
{
    let ghost items = todo_items.deep_view();
    let ghost issues = github_issues.deep_view();
    let by_number = index_by_number(github_issues);

    let mut updated_items: Vec<TodoItem> = Vec::new();
    let mut at: usize = 0;
    while at < todo_items.len()
        invariant
            at <= todo_items.len(),
            items == todo_items.deep_view(),
            indexes(by_number@, issues),
            updated_items.deep_view() == refreshed_all(items.take(at as int), issues),
        decreases todo_items.len() - at,
    {
        let ghost before = updated_items.deep_view();
        let item = refresh_item(&todo_items[at], &by_number, Ghost(issues));
        updated_items.push(item);
        assert(updated_items.deep_view() =~= before.push(item@));
        assert(before.push(item@) =~= refreshed_all(items.take(at as int + 1), issues));
        at += 1;
    }
    assert(items.take(at as int) == items);

    let ghost updated = updated_items.deep_view();
    let mut new_items: Vec<TodoItem> = Vec::new();
    let mut seen: usize = 0;
    while seen < github_issues.len()
        invariant
            seen <= github_issues.len(),
            issues == github_issues.deep_view(),
            updated == updated_items.deep_view(),
            new_items.deep_view() == discovered(updated, issues.take(seen as int)),
        decreases github_issues.len() - seen,
    {
        let issue = &github_issues[seen];
        let ghost before = new_items.deep_view();
        assert(issues.take(seen as int + 1).drop_last() == issues.take(seen as int));
        assert(issues.take(seen as int + 1).last() == issue@);
        let is_open = match issue.state {
            IssueState::Open => true,
            IssueState::Closed => false,
        };
        if is_open && !any_tracks(&updated_items, issue) {
            let item = TodoItem {
                text: issue.title.clone(),
                is_checked: false,
                issue_number: Some(issue.number),
            };
            new_items.push(item);
            assert(new_items.deep_view() =~= before.push(item_for(issue@)));
        }
        seen += 1;
    }
    assert(issues.take(seen as int) == issues);

    let ghost found = new_items.deep_view();
    updated_items.append(&mut new_items);
    assert(updated_items.deep_view() =~= updated + found);
    updated_items
}

/// The number of pages after which a listing of issues stops.
pub const MAX_ISSUE_PAGES: u32 = 3;

/// The page to ask for after page `page` came back with `entries` entries,
/// if another is to be asked for: none after an empty page, none after
/// the last page allowed.
pub open spec fn page_after(page: u32, entries: usize) -> Option<u32> {
    if entries > 0 && page < MAX_ISSUE_PAGES {
        Some((page + 1) as u32)
    } else {
        None
    }
}

/// Decides which page of a bounded listing to ask for next.
pub fn next_listing_page(page: u32, entries: usize) -> (r: Option<u32>)
    ensures
        r == page_after(page, entries),
{
    if entries > 0 && page < MAX_ISSUE_PAGES {
        Some(page + 1)
    } else {
        None
    }
}

} // verus!
