use atat::markdown_parser::{
    collect_todo_items, make_item, parse_todo_markdown, serialize_todo_markdown, MarkdownEvent,
};
use atat::todo::TodoItem;

fn item(text: &str, is_checked: bool, issue_number: Option<u64>) -> TodoItem {
    TodoItem {
        text: text.to_string(),
        is_checked,
        issue_number,
    }
}

fn text(content: &str) -> MarkdownEvent {
    MarkdownEvent::Text(content.to_string())
}

#[test]
fn plain_task_lists_survive_reading_and_writing() {
    let documents = [
        "",
        "- [ ] Task 1\n",
        "- [x] Task 2 (#123)\n",
        "- [ ] a\n- [x] b\n- [ ] c (#1)\n- [x] d (#18446744073709551615)\n",
        "- [ ] Task with emoji 🚀 (#7)\n",
    ];
    for document in documents {
        let items = parse_todo_markdown(document).unwrap();
        assert_eq!(serialize_todo_markdown(&items), document);
    }
}

#[test]
fn written_items_read_back() {
    let items = vec![
        item("Unchecked task", false, None),
        item("Checked task", true, None),
        item("Task with issue", false, Some(123)),
        item("Ends in a bracket (see notes)", true, Some(0)),
    ];
    let written = serialize_todo_markdown(&items);
    assert_eq!(parse_todo_markdown(&written).unwrap(), items);
}

#[test]
fn a_reference_is_split_off_the_text() {
    assert_eq!(make_item(false, "Task (#12)"), item("Task", false, Some(12)));
    assert_eq!(make_item(true, "  Task   (#12)  "), item("Task", true, Some(12)));
    assert_eq!(make_item(false, "Task (#+7)"), item("Task", false, Some(7)));
    assert_eq!(make_item(false, "Task (#007)"), item("Task", false, Some(7)));
    assert_eq!(make_item(false, " (#5)"), item("(#5)", false, None));
    assert_eq!(make_item(false, "a (#5)"), item("a", false, Some(5)));
}

#[test]
fn only_the_last_reference_counts() {
    assert_eq!(
        make_item(false, "Task (#1) and (#2)"),
        item("Task (#1) and", false, Some(2))
    );
    assert_eq!(
        make_item(false, "Task (#1) and (#x)"),
        item("Task (#1) and (#x)", false, None)
    );
}

#[test]
fn what_follows_a_reference_is_dropped() {
    assert_eq!(make_item(false, "Task (#12) extra"), item("Task", false, Some(12)));
    assert_eq!(make_item(false, "Task (#12)) (x)"), item("Task", false, Some(12)));
}

#[test]
fn what_is_no_number_is_no_reference() {
    for buffer in [
        "Task (#invalid)",
        "Task (#)",
        "Task (# 123)",
        "Task (#-1)",
        "Task (#12",
        "Task(#12)",
        "Task (#18446744073709551616)",
        "Task ( #12)",
    ] {
        assert_eq!(make_item(true, buffer), item(buffer, true, None), "{buffer:?}");
    }
}

#[test]
fn items_are_gathered_from_events() {
    let events = vec![
        MarkdownEvent::ListStart,
        MarkdownEvent::Other,
        MarkdownEvent::TaskListMarker(false),
        text("Main "),
        MarkdownEvent::Code("task".to_string()),
        MarkdownEvent::ListStart,
        MarkdownEvent::Other,
        MarkdownEvent::TaskListMarker(true),
        text("Sub task (#4)"),
        MarkdownEvent::ItemEnd,
        MarkdownEvent::Other,
        MarkdownEvent::ItemEnd,
        MarkdownEvent::Other,
    ];
    assert_eq!(
        collect_todo_items(&events),
        vec![item("Main task", false, None), item("Sub task", true, Some(4))]
    );
}

#[test]
fn text_outside_a_task_item_is_ignored() {
    let events = vec![
        text("Regular text."),
        MarkdownEvent::ListStart,
        text("Regular bullet"),
        MarkdownEvent::ItemEnd,
        MarkdownEvent::TaskListMarker(true),
        MarkdownEvent::ItemEnd,
    ];
    assert_eq!(collect_todo_items(&events), vec![]);
}

#[test]
fn a_checkbox_without_text_stays_open_for_the_next_text() {
    let events = vec![
        MarkdownEvent::TaskListMarker(true),
        MarkdownEvent::ItemEnd,
        text("Regular bullet"),
        MarkdownEvent::ItemEnd,
        text("Another bullet"),
        MarkdownEvent::ItemEnd,
    ];
    assert_eq!(
        collect_todo_items(&events),
        vec![item("Regular bullet", true, None)]
    );
}

#[test]
fn a_second_checkbox_discards_the_text_before_it() {
    let events = vec![
        MarkdownEvent::TaskListMarker(false),
        text("lost"),
        MarkdownEvent::TaskListMarker(true),
        text("kept"),
        MarkdownEvent::ItemEnd,
    ];
    assert_eq!(collect_todo_items(&events), vec![item("kept", true, None)]);
}

#[test]
fn an_item_is_written_as_one_line() {
    assert_eq!(serialize_todo_markdown(&[item("a", false, None)]), "- [ ] a\n");
    assert_eq!(serialize_todo_markdown(&[item("a", true, None)]), "- [x] a\n");
    assert_eq!(
        serialize_todo_markdown(&[item("a", true, Some(0))]),
        "- [x] a (#0)\n"
    );
    assert_eq!(
        serialize_todo_markdown(&[item("", false, Some(u64::MAX))]),
        "- [ ]  (#18446744073709551615)\n"
    );
}

#[test]
fn an_upper_case_tick_reads_as_ticked() {
    let items = parse_todo_markdown("- [X] Task\n").unwrap();
    assert_eq!(items, vec![item("Task", true, None)]);
    assert_eq!(serialize_todo_markdown(&items), "- [x] Task\n");
}

#[test]
fn the_events_of_plain_lines_read_back_as_their_items() {
    let items = vec![
        item("first", false, None),
        item("second", true, Some(12)),
        item("third (see #4)", false, Some(0)),
    ];
    let mut events = Vec::new();
    for entry in &items {
        events.push(MarkdownEvent::TaskListMarker(entry.is_checked));
        let line = serialize_todo_markdown(std::slice::from_ref(entry));
        events.push(text(&line["- [ ] ".len()..line.len() - 1]));
        events.push(MarkdownEvent::ItemEnd);
    }
    assert_eq!(collect_todo_items(&events), items);
}

#[test]
fn a_listing_reads_back_whatever_stands_between_its_lines() {
    let items = vec![item("Task 1", false, None), item("Task 2", true, Some(123))];
    let events = vec![
        MarkdownEvent::ListStart,
        MarkdownEvent::Other,
        MarkdownEvent::TaskListMarker(false),
        text("Task"),
        text(" 1"),
        MarkdownEvent::ItemEnd,
        MarkdownEvent::Other,
        text("between the lines"),
        MarkdownEvent::ItemEnd,
        MarkdownEvent::TaskListMarker(true),
        text("Task 2 "),
        MarkdownEvent::Other,
        MarkdownEvent::Code("(#".to_string()),
        text("123)"),
        MarkdownEvent::ItemEnd,
        MarkdownEvent::Other,
    ];
    let read = collect_todo_items(&events);
    assert_eq!(read, items);
    assert_eq!(
        serialize_todo_markdown(&read),
        "- [ ] Task 1\n- [x] Task 2 (#123)\n"
    );
}
