use anyhow::Result;
use atat::github::issues::{GitHubIssue, IssueState};
use atat::github::pull::{
    fetch_github_issues, parse_github_issues, synchronize_with_github_issues,
};
use atat::todo::TodoItem;
use serde_json::Value;

fn object(fields: Vec<(&str, Value)>) -> Value {
    let mut map = serde_json::Map::new();
    for (key, value) in fields {
        map.insert(key.to_string(), value);
    }
    Value::Object(map)
}

#[test]
fn test_parse_github_issues_with_valid_issues() {
    let issues_json = vec![
        object(vec![("number", Value::from(123)), ("title", Value::from("Test issue")), ("state", Value::from("open")), ("pull_request", Value::Null)]),
        object(vec![("number", Value::from(456)), ("title", Value::from("Closed issue")), ("state", Value::from("closed")), ("pull_request", Value::Null)]),
    ];

    let issues = parse_github_issues(&issues_json);

    assert_eq!(issues.len(), 2);
    assert_eq!(issues[0].number, 123);
    assert_eq!(issues[0].title, "Test issue");
    assert_eq!(issues[0].state, IssueState::Open);
    assert_eq!(issues[1].number, 456);
    assert_eq!(issues[1].title, "Closed issue");
    assert_eq!(issues[1].state, IssueState::Closed);
}

#[test]
fn test_parse_github_issues_filters_pull_requests() {
    let issues_json = vec![
        object(vec![("number", Value::from(123)), ("title", Value::from("Regular issue")), ("state", Value::from("open")), ("pull_request", Value::Null)]),
        object(vec![("number", Value::from(456)), ("title", Value::from("Pull request")), ("state", Value::from("open")), ("pull_request", object(vec![("url", Value::from("https://api.github.com/repos/user/repo/pulls/456"))]))]),
    ];

    let issues = parse_github_issues(&issues_json);

    assert_eq!(issues.len(), 1);
    assert_eq!(issues[0].number, 123);
    assert_eq!(issues[0].title, "Regular issue");
}

#[test]
fn test_parse_github_issues_ignores_invalid_state() {
    let issues_json = vec![
        object(vec![("number", Value::from(123)), ("title", Value::from("Valid issue")), ("state", Value::from("open")), ("pull_request", Value::Null)]),
        object(vec![("number", Value::from(456)), ("title", Value::from("Invalid state")), ("state", Value::from("unknown")), ("pull_request", Value::Null)]),
    ];

    let issues = parse_github_issues(&issues_json);

    assert_eq!(issues.len(), 1);
    assert_eq!(issues[0].number, 123);
}

#[test]
fn test_parse_github_issues_ignores_missing_fields() {
    let issues_json = vec![
        object(vec![("number", Value::from(123)), ("title", Value::from("Valid issue")), ("state", Value::from("open")), ("pull_request", Value::Null)]),
        object(vec![("title", Value::from("Missing number")), ("state", Value::from("open")), ("pull_request", Value::Null)]),
        object(vec![("number", Value::from(456)), ("state", Value::from("open")), ("pull_request", Value::Null)]),
    ];

    let issues = parse_github_issues(&issues_json);

    assert_eq!(issues.len(), 1);
    assert_eq!(issues[0].number, 123);
}

#[test]
fn test_fetch_github_issues_single_page() {
    let mock_fetcher = |_repo: &str,
                        _token: &str,
                        page: u32,
                        _per_page: u32|
     -> Result<Vec<Value>> {
        match page {
            1 => Ok(vec![object(vec![("number", Value::from(123)), ("title", Value::from("Test issue")), ("state", Value::from("open")), ("pull_request", Value::Null)])]),
            _ => Ok(vec![]),
        }
    };

    let result = fetch_github_issues("user/repo", "token", mock_fetcher);

    assert!(result.is_ok());
    let issues = result.unwrap();
    assert_eq!(issues.len(), 1);
    assert_eq!(issues[0].number, 123);
}

#[test]
fn test_fetch_github_issues_multiple_pages() {
    let mock_fetcher = |_repo: &str,
                        _token: &str,
                        page: u32,
                        _per_page: u32|
     -> Result<Vec<Value>> {
        match page {
            1 => Ok(vec![object(vec![("number", Value::from(123)), ("title", Value::from("First issue")), ("state", Value::from("open")), ("pull_request", Value::Null)])]),
            2 => Ok(vec![object(vec![("number", Value::from(456)), ("title", Value::from("Second issue")), ("state", Value::from("closed")), ("pull_request", Value::Null)])]),
            _ => Ok(vec![]),
        }
    };

    let result = fetch_github_issues("user/repo", "token", mock_fetcher);

    assert!(result.is_ok());
    let issues = result.unwrap();
    assert_eq!(issues.len(), 2);
    assert_eq!(issues[0].number, 123);
    assert_eq!(issues[1].number, 456);
}

#[test]
fn test_fetch_github_issues_empty_response() {
    let mock_fetcher = |_repo: &str,
                        _token: &str,
                        _page: u32,
                        _per_page: u32|
     -> Result<Vec<Value>> { Ok(vec![]) };

    let result = fetch_github_issues("user/repo", "token", mock_fetcher);

    assert!(result.is_ok());
    let issues = result.unwrap();
    assert_eq!(issues.len(), 0);
}

#[test]
fn test_fetch_github_issues_error_handling() {
    let mock_fetcher = |_repo: &str,
                        _token: &str,
                        _page: u32,
                        _per_page: u32|
     -> Result<Vec<Value>> {
        Err(anyhow::Error::msg("Network error"))
    };

    let result = fetch_github_issues("user/repo", "token", mock_fetcher);

    assert!(result.is_err());
    assert!(result.unwrap_err().to_string().contains("Network error"));
}

#[test]
fn test_parse_github_issues_empty_array() {
    let issues_json = vec![];
    let issues = parse_github_issues(&issues_json);
    assert_eq!(issues.len(), 0);
}

#[test]
fn test_parse_github_issues_all_invalid() {
    let issues_json = vec![
        object(vec![]),
        object(vec![("invalid", Value::from("data"))]),
        object(vec![("number", Value::from("not_a_number"))]),
    ];
    let issues = parse_github_issues(&issues_json);
    assert_eq!(issues.len(), 0);
}

#[test]
fn test_parse_github_issues_partial_valid() {
    let issues_json = vec![
        object(vec![("number", Value::from(123)), ("title", Value::from("Valid issue")), ("state", Value::from("open")), ("pull_request", Value::Null)]),
        object(vec![("number", Value::from(456)), ("title", Value::from("Invalid state issue")), ("state", Value::from("invalid")), ("pull_request", Value::Null)]),
        object(vec![("number", Value::from(789)), ("title", Value::from("Another valid issue")), ("state", Value::from("closed")), ("pull_request", Value::Null)]),
    ];

    let issues = parse_github_issues(&issues_json);

    assert_eq!(issues.len(), 2);
    assert_eq!(issues[0].number, 123);
    assert_eq!(issues[0].state, IssueState::Open);
    assert_eq!(issues[1].number, 789);
    assert_eq!(issues[1].state, IssueState::Closed);
}

#[test]
fn test_synchronize_with_github_issues_updates_closed_issues() {
    let todo_items = vec![
        TodoItem {
            text: "Fix bug".to_string(),
            is_checked: false,
            issue_number: Some(123),
        },
        TodoItem {
            text: "Add feature".to_string(),
            is_checked: false,
            issue_number: Some(456),
        },
    ];
    let github_issues = vec![
        GitHubIssue {
            number: 123,
            title: "Fix bug".to_string(),
            state: IssueState::Closed,
        },
        GitHubIssue {
            number: 456,
            title: "Add feature".to_string(),
            state: IssueState::Open,
        },
    ];

    let result = synchronize_with_github_issues(&todo_items, &github_issues);

    assert_eq!(result.len(), 2);
    assert_eq!(result[0].text, "Fix bug");
    assert_eq!(result[0].is_checked, true);
    assert_eq!(result[0].issue_number, Some(123));
    assert_eq!(result[1].text, "Add feature");
    assert_eq!(result[1].is_checked, false);
    assert_eq!(result[1].issue_number, Some(456));
}

#[test]
fn test_synchronize_with_github_issues_adds_new_open_issues() {
    let todo_items = vec![TodoItem {
        text: "Existing task".to_string(),
        is_checked: false,
        issue_number: Some(123),
    }];
    let github_issues = vec![
        GitHubIssue {
            number: 123,
            title: "Existing task".to_string(),
            state: IssueState::Open,
        },
        GitHubIssue {
            number: 456,
            title: "New task".to_string(),
            state: IssueState::Open,
        },
    ];

    let result = synchronize_with_github_issues(&todo_items, &github_issues);

    assert_eq!(result.len(), 2);
    assert_eq!(result[0].text, "Existing task");
    assert_eq!(result[0].issue_number, Some(123));
    assert_eq!(result[1].text, "New task");
    assert_eq!(result[1].is_checked, false);
    assert_eq!(result[1].issue_number, Some(456));
}

#[test]
fn test_synchronize_with_github_issues_skips_already_checked() {
    let todo_items = vec![TodoItem {
        text: "Completed task".to_string(),
        is_checked: true,
        issue_number: Some(123),
    }];
    let github_issues = vec![GitHubIssue {
        number: 123,
        title: "Completed task".to_string(),
        state: IssueState::Closed,
    }];

    let result = synchronize_with_github_issues(&todo_items, &github_issues);

    assert_eq!(result.len(), 1);
    assert_eq!(result[0].text, "Completed task");
    assert_eq!(result[0].is_checked, true);
    assert_eq!(result[0].issue_number, Some(123));
}

#[test]
fn test_synchronize_with_github_issues_ignores_closed_issues_for_new_todos() {
    let todo_items = vec![];
    let github_issues = vec![
        GitHubIssue {
            number: 123,
            title: "Closed issue".to_string(),
            state: IssueState::Closed,
        },
        GitHubIssue {
            number: 456,
            title: "Open issue".to_string(),
            state: IssueState::Open,
        },
    ];

    let result = synchronize_with_github_issues(&todo_items, &github_issues);

    assert_eq!(result.len(), 1);
    assert_eq!(result[0].text, "Open issue");
    assert_eq!(result[0].is_checked, false);
    assert_eq!(result[0].issue_number, Some(456));
}

#[test]
fn test_synchronize_with_github_issues_preserves_todo_without_issue_number() {
    let todo_items = vec![
        TodoItem {
            text: "Local task".to_string(),
            is_checked: false,
            issue_number: None,
        },
        TodoItem {
            text: "Task with issue".to_string(),
            is_checked: false,
            issue_number: Some(123),
        },
    ];
    let github_issues = vec![GitHubIssue {
        number: 123,
        title: "Task with issue".to_string(),
        state: IssueState::Closed,
    }];

    let result = synchronize_with_github_issues(&todo_items, &github_issues);

    assert_eq!(result.len(), 2);
    assert_eq!(result[0].text, "Local task");
    assert_eq!(result[0].is_checked, false);
    assert_eq!(result[0].issue_number, None);
    assert_eq!(result[1].text, "Task with issue");
    assert_eq!(result[1].is_checked, true);
    assert_eq!(result[1].issue_number, Some(123));
}

#[test]
fn test_synchronize_with_github_issues_avoids_duplicate_by_title() {
    let todo_items = vec![TodoItem {
        text: "Same title task".to_string(),
        is_checked: false,
        issue_number: None,
    }];
    let github_issues = vec![GitHubIssue {
        number: 123,
        title: "Same title task".to_string(),
        state: IssueState::Open,
    }];

    let result = synchronize_with_github_issues(&todo_items, &github_issues);

    assert_eq!(result.len(), 1);
    assert_eq!(result[0].text, "Same title task");
    assert_eq!(result[0].issue_number, None);
}

#[test]
fn test_synchronize_with_github_issues_avoids_duplicate_by_title_with_trim() {
    let todo_items = vec![TodoItem {
        text: "  Task with spaces  ".to_string(),
        is_checked: false,
        issue_number: None,
    }];
    let github_issues = vec![GitHubIssue {
        number: 123,
        title: "Task with spaces".to_string(),
        state: IssueState::Open,
    }];

    let result = synchronize_with_github_issues(&todo_items, &github_issues);

    assert_eq!(result.len(), 1);
    assert_eq!(result[0].text, "  Task with spaces  ");
    assert_eq!(result[0].issue_number, None);
}

#[test]
fn test_synchronize_with_github_issues_no_matching_issue() {
    let todo_items = vec![TodoItem {
        text: "Task without matching issue".to_string(),
        is_checked: false,
        issue_number: Some(999),
    }];
    let github_issues = vec![GitHubIssue {
        number: 123,
        title: "Different issue".to_string(),
        state: IssueState::Closed,
    }];

    let result = synchronize_with_github_issues(&todo_items, &github_issues);

    assert_eq!(result.len(), 1);
    assert_eq!(result[0].text, "Task without matching issue");
    assert_eq!(result[0].is_checked, false);
    assert_eq!(result[0].issue_number, Some(999));
}

#[test]
fn test_synchronize_with_github_issues_empty_inputs() {
    let todo_items = vec![];
    let github_issues = vec![];

    let result = synchronize_with_github_issues(&todo_items, &github_issues);

    assert_eq!(result.len(), 0);
}

#[test]
fn test_synchronize_with_github_issues_complex_scenario() {
    let todo_items = vec![
        TodoItem {
            text: "To be closed".to_string(),
            is_checked: false,
            issue_number: Some(100),
        },
        TodoItem {
            text: "Already closed".to_string(),
            is_checked: true,
            issue_number: Some(200),
        },
        TodoItem {
            text: "Local only task".to_string(),
            is_checked: false,
            issue_number: None,
        },
    ];
    let github_issues = vec![
        GitHubIssue {
            number: 100,
            title: "To be closed".to_string(),
            state: IssueState::Closed,
        },
        GitHubIssue {
            number: 200,
            title: "Already closed".to_string(),
            state: IssueState::Closed,
        },
        GitHubIssue {
            number: 300,
            title: "New open issue".to_string(),
            state: IssueState::Open,
        },
        GitHubIssue {
            number: 400,
            title: "Closed new issue".to_string(),
            state: IssueState::Closed,
        },
    ];

    let result = synchronize_with_github_issues(&todo_items, &github_issues);

    assert_eq!(result.len(), 4);
    assert_eq!(result[0].text, "To be closed");
    assert_eq!(result[0].is_checked, true);
    assert_eq!(result[1].text, "Already closed");
    assert_eq!(result[1].is_checked, true);
    assert_eq!(result[2].text, "Local only task");
    assert_eq!(result[2].is_checked, false);
    assert_eq!(result[2].issue_number, None);
    assert_eq!(result[3].text, "New open issue");
    assert_eq!(result[3].is_checked, false);
    assert_eq!(result[3].issue_number, Some(300));
}

#[test]
fn test_parse_github_issues_number_type_variants() {
    let issues_json = vec![
        object(vec![("number", Value::from(123)), ("title", Value::from("Valid u64 number")), ("state", Value::from("open")), ("pull_request", Value::Null)]),
        object(vec![("number", Value::from("456")), ("title", Value::from("String number should be ignored")), ("state", Value::from("open")), ("pull_request", Value::Null)]),
        object(vec![("number", Value::from(789.5)), ("title", Value::from("Float number should be ignored")), ("state", Value::from("open")), ("pull_request", Value::Null)]),
    ];

    let issues = parse_github_issues(&issues_json);

    assert_eq!(issues.len(), 1);
    assert_eq!(issues[0].number, 123);
}
