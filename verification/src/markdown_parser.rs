//! The markdown form of a checklist: reading task-list items out of a
//! document and writing items back as task-list lines.

use vstd::prelude::*;
use vstd::string::{StrSliceExecFns, StringExecFns};
use crate::decimal::{decimal, parse_u64, parse_u64_range, push_decimal};
use crate::text::{chars_of, trim, trim_bounds, trimmed};
use crate::todo::{TodoItem, TodoItemView};

verus! {

/// What the checklist reader takes from one event of a markdown document.
#[derive(Debug, PartialEq)]
pub enum MarkdownEvent {
    /// The checkbox of a task-list item; true when it is ticked.
    TaskListMarker(bool),
    /// A run of plain text.
    Text(String),
    /// The content of an inline code span.
    Code(String),
    /// The start of a list.
    ListStart,
    /// The end of a list item.
    ItemEnd,
    /// Any other event.
    Other,
}

/// The mathematical content of a [`MarkdownEvent`].
pub enum MarkdownEventView {
    TaskListMarker(bool),
    Text(Seq<char>),
    Code(Seq<char>),
    ListStart,
    ItemEnd,
    Other,
}

impl View for MarkdownEvent {
    type V = MarkdownEventView;

    open spec fn view(&self) -> MarkdownEventView {
        match self {
            MarkdownEvent::TaskListMarker(checked) => MarkdownEventView::TaskListMarker(*checked),
            MarkdownEvent::Text(text) => MarkdownEventView::Text(text@),
            MarkdownEvent::Code(text) => MarkdownEventView::Code(text@),
            MarkdownEvent::ListStart => MarkdownEventView::ListStart,
            MarkdownEvent::ItemEnd => MarkdownEventView::ItemEnd,
            MarkdownEvent::Other => MarkdownEventView::Other,
        }
    }
}

impl DeepView for MarkdownEvent {
    type V = MarkdownEventView;

    open spec fn deep_view(&self) -> MarkdownEventView {
        self@
    }
}

/// The events that `pulldown_cmark` reads `content` as, with task lists and
/// strikethrough enabled, each reduced to what the checklist reader takes
/// from it.
pub uninterp spec fn markdown_events(content: Seq<char>) -> Seq<MarkdownEventView>;

/// Runs `pulldown_cmark::Parser::new_ext` over `content` with the options
/// `ENABLE_TASKLISTS` and `ENABLE_STRIKETHROUGH` and hands out its events in
/// order: task-list markers, text and inline code with their content, the
/// start of a list and the end of an item as such, everything else as
/// `Other`. The contract only names that sequence; it is a function of
/// `content` alone.
#[verifier::external_body]
fn tokenize(content: &str) -> (events: Vec<MarkdownEvent>)
    ensures
        events.deep_view() == markdown_events(content@),
{
    let options = pulldown_cmark::Options::ENABLE_TASKLISTS
        | pulldown_cmark::Options::ENABLE_STRIKETHROUGH;
    pulldown_cmark::Parser::new_ext(content, options).map(|event| match event {
        pulldown_cmark::Event::TaskListMarker(checked) => MarkdownEvent::TaskListMarker(checked),
        pulldown_cmark::Event::Text(text) => MarkdownEvent::Text(text.to_string()),
        pulldown_cmark::Event::Code(text) => MarkdownEvent::Code(text.to_string()),
        pulldown_cmark::Event::Start(pulldown_cmark::Tag::List(_)) => MarkdownEvent::ListStart,
        pulldown_cmark::Event::End(pulldown_cmark::TagEnd::Item) => MarkdownEvent::ItemEnd,
        _ => MarkdownEvent::Other,
    }).collect()
}

/// Whether the three characters ` (#`, which open an issue reference, stand
/// in `s` at `at`.
pub open spec fn marker_at(s: Seq<char>, at: int) -> bool {
    &&& 0 <= at
    &&& at + 3 <= s.len()
    &&& s[at] == ' '
    &&& s[at + 1] == '('
    &&& s[at + 2] == '#'
}

/// The last place at or before `limit` where ` (#` stands in `s`.
pub open spec fn last_marker_before(s: Seq<char>, limit: int) -> Option<int>
    decreases limit + 1,
{
    if limit < 0 {
        None
    } else if marker_at(s, limit) {
        Some(limit)
    } else {
        last_marker_before(s, limit - 1)
    }
}

/// The last place where ` (#` stands in `s`.
pub open spec fn last_marker(s: Seq<char>) -> Option<int> {
    last_marker_before(s, s.len() - 3)
}

/// The first place at or after `from` where `)` stands in `s`.
pub open spec fn first_close(s: Seq<char>, from: int) -> Option<int>
    decreases s.len() - from,
{
    if from < 0 || from >= s.len() {
        None
    } else if s[from] == ')' {
        Some(from)
    } else {
        first_close(s, from + 1)
    }
}

/// The issue number that `s` ends in, if it ends in one: what stands
/// between the last ` (#` and the first `)` after it, read as a number.
pub open spec fn issue_reference(s: Seq<char>) -> Option<(int, u64)> {
    match last_marker(s) {
        Some(at) => match first_close(s, at) {
            Some(close) => match parse_u64(s.subrange(at + 3, close)) {
                Some(number) => Some((at, number)),
                None => None,
            },
            None => None,
        },
        None => None,
    }
}

/// The text and the issue number that the trimmed text `s` of a list item
/// stands for: with an issue reference, what comes before it, trimmed, and
/// the number; without one, all of `s` and no number.
pub open spec fn split_issue_suffix(s: Seq<char>) -> (Seq<char>, Option<u64>) {
    match issue_reference(s) {
        Some((at, number)) => (trimmed(s.take(at)), Some(number)),
        None => (s, None),
    }
}

/// The item that a checkbox and the text gathered after it stand for.
pub open spec fn item_from(checked: bool, buffer: Seq<char>) -> TodoItemView {
    let (text, issue_number) = split_issue_suffix(trimmed(buffer));
    TodoItemView { text, is_checked: checked, issue_number }
}

/// Where the reader stands within a document: the items found so far, the
/// checkbox of the item it is in, if it is in one, and that item's text as
/// far as it was read.
pub struct ScanState {
    pub items: Seq<TodoItemView>,
    pub pending: Option<bool>,
    pub buffer: Seq<char>,
}

/// The reader's state after one more event. A checkbox opens an item; text
/// and inline code add to the open item's text; the start of a nested list
/// and the end of the item close it, if it has text.
pub open spec fn advance(state: ScanState, event: MarkdownEventView) -> ScanState {
    let closed = ScanState {
        items: match state.pending {
            Some(checked) => state.items.push(item_from(checked, state.buffer)),
            None => state.items,
        },
        pending: None,
        buffer: Seq::empty(),
    };
    match event {
        MarkdownEventView::TaskListMarker(checked) => ScanState {
            items: state.items,
            pending: Some(checked),
            buffer: Seq::empty(),
        },
        MarkdownEventView::Text(text) | MarkdownEventView::Code(text) => if state.pending
            is Some {
            ScanState { buffer: state.buffer + text, ..state }
        } else {
            state
        },
        MarkdownEventView::ListStart => if state.pending is Some && state.buffer.len() > 0 {
            closed
        } else {
            state
        },
        MarkdownEventView::ItemEnd => if state.buffer.len() > 0 {
            closed
        } else {
            state
        },
        MarkdownEventView::Other => state,
    }
}

/// The reader's state after all of `events`.
pub open spec fn scan(events: Seq<MarkdownEventView>) -> ScanState
    decreases events.len(),
{
    if events.len() == 0 {
        ScanState { items: Seq::empty(), pending: None, buffer: Seq::empty() }
    } else {
        advance(scan(events.drop_last()), events.last())
    }
}

/// The checklist items that `events` hold, in order.
pub open spec fn collected_items(events: Seq<MarkdownEventView>) -> Seq<TodoItemView> {
    scan(events).items
}

fn find_last_marker(chars: &Vec<char>) -> (r: Option<usize>)
    ensures
        match r {
            Some(at) => last_marker(chars@) == Some(at as int) && marker_at(chars@, at as int),
            None => last_marker(chars@) is None,
        },
{
    if chars.len() < 3 {
        return None;
    }
    let mut limit: usize = chars.len() - 3;
    loop
        invariant
            limit + 3 <= chars.len(),
            last_marker(chars@) == last_marker_before(chars@, limit as int),
        decreases limit,
    {
        if chars[limit] == ' ' && chars[limit + 1] == '(' && chars[limit + 2] == '#' {
            return Some(limit);
        }
        if limit == 0 {
            assert(last_marker_before(chars@, -1) is None);
            return None;
        }
        limit -= 1;
    }
}

fn find_first_close(chars: &Vec<char>, from: usize) -> (r: Option<usize>)
    requires
        from <= chars.len(),
    ensures
        match r {
            Some(close) => first_close(chars@, from as int) == Some(close as int) && from <= close
                < chars.len() && chars@[close as int] == ')',
            None => first_close(chars@, from as int) is None,
        },
{
    let mut at: usize = from;
    while at < chars.len()
        invariant
            from <= at <= chars.len(),
            first_close(chars@, from as int) == first_close(chars@, at as int),
        decreases chars.len() - at,
    {
        if chars[at] == ')' {
            return Some(at);
        }
        at += 1;
    }
    None
}

/// Builds the item that a checkbox and the text gathered after it stand
/// for.
pub fn make_item(checked: bool, buffer: &str) -> (item: TodoItem)
    ensures
        item@ == item_from(checked, buffer@),
{
    let text = trim(buffer);
    let chars = chars_of(text);
    let plain = TodoItem { text: String::from_str(text), is_checked: checked, issue_number: None };
    let at = match find_last_marker(&chars) {
        Some(at) => at,
        None => {
            return plain;
        },
    };
    let close = match find_first_close(&chars, at) {
        Some(close) => {
            assert(at + 3 <= close) by {
                assert(chars@[at as int] != ')');
                assert(chars@[at as int + 1] != ')');
                assert(chars@[at as int + 2] != ')');
            }
            close
        },
        None => {
            return plain;
        },
    };
    match parse_u64_range(&chars, at + 3, close) {
        Some(number) => {
            let (from, to) = trim_bounds(&chars, 0, at);
            assert(chars@.subrange(0, at as int) == chars@.take(at as int));
            TodoItem {
                text: String::from_str(text.substring_char(from, to)),
                is_checked: checked,
                issue_number: Some(number),
            }
        },
        None => plain,
    }
}

/// Gathers the checklist items out of the events of a document.
pub fn collect_todo_items(events: &[MarkdownEvent]) -> (items: Vec<TodoItem>)
    ensures
        items.deep_view() == collected_items(events.deep_view()),
{
    let ghost all = events.deep_view();
    let mut items: Vec<TodoItem> = Vec::new();
    let mut pending: Option<bool> = None;
    let mut buffer = String::new();
    let mut at: usize = 0;
    assert(items.deep_view() =~= scan(all.take(0)).items);
    while at < events.len()
        invariant
            at <= events.len(),
            all == events.deep_view(),
            scan(all.take(at as int)) == (ScanState {
                items: items.deep_view(),
                pending,
                buffer: buffer@,
            }),
        decreases events.len() - at,
    {
        let ghost before = items.deep_view();
        let ghost state = scan(all.take(at as int));
        assert(all.take(at as int + 1).drop_last() == all.take(at as int));
        assert(all.take(at as int + 1).last() == events[at as int]@);
        let close = match &events[at] {
            MarkdownEvent::TaskListMarker(checked) => {
                pending = Some(*checked);
                buffer = String::new();
                false
            },
            MarkdownEvent::Text(text) => {
                if pending.is_some() {
                    buffer.append(text.as_str());
                }
                false
            },
            MarkdownEvent::Code(text) => {
                if pending.is_some() {
                    buffer.append(text.as_str());
                }
                false
            },
            MarkdownEvent::ListStart => pending.is_some() && !buffer.as_str().is_empty(),
            MarkdownEvent::ItemEnd => !buffer.as_str().is_empty(),
            MarkdownEvent::Other => false,
        };
        if close {
            if let Some(checked) = pending {
                let item = make_item(checked, buffer.as_str());
                items.push(item);
                assert(items.deep_view() =~= before.push(item@));
            }
            pending = None;
            buffer = String::new();
        }
        assert(items.deep_view() =~= advance(state, events[at as int]@).items);
        at += 1;
    }
    assert(all.take(at as int) == all);
    items
}

/// Reads the checklist items out of a markdown document. Reading never
/// fails: a document without task-list items holds no items.
pub fn parse_todo_markdown(content: &str) -> (r: Result<Vec<TodoItem>, String>)
    ensures
        r matches Ok(items) && items.deep_view() == collected_items(markdown_events(content@)),
{
    let events = tokenize(content);
    Ok(collect_todo_items(events.as_slice()))
}

/// The reference that follows the text of an item tracked under `number`.
pub open spec fn rendered_reference(number: Option<u64>) -> Seq<char> {
    match number {
        Some(number) => " (#"@ + decimal(number as nat) + ")"@,
        None => Seq::empty(),
    }
}

/// The task-list line that stands for `item`, with its line break.
pub open spec fn rendered_item(item: TodoItemView) -> Seq<char> {
    "- "@ + (if item.is_checked {
        "[x]"@
    } else {
        "[ ]"@
    }) + " "@ + item.text + rendered_reference(item.issue_number) + "\n"@
}

/// The task list that stands for `items`: one line per item, in order.
pub open spec fn rendered(items: Seq<TodoItemView>) -> Seq<char>
    decreases items.len(),
{
    if items.len() == 0 {
        Seq::empty()
    } else {
        rendered(items.drop_last()) + rendered_item(items.last())
    }
}

/// Writes `items` as a markdown task list, one line per item.
pub fn serialize_todo_markdown(items: &[TodoItem]) -> (r: String)
    ensures
        r@ == rendered(items.deep_view()),
{
    let ghost all = items.deep_view();
    let mut out = String::new();
    let mut at: usize = 0;
    assert(out@ =~= rendered(all.take(0)));
    while at < items.len()
        invariant
            at <= items.len(),
            all == items.deep_view(),
            out@ == rendered(all.take(at as int)),
        decreases items.len() - at,
    {
        let item = &items[at];
        let ghost before = out@;
        assert(all.take(at as int + 1).drop_last() == all.take(at as int));
        assert(all.take(at as int + 1).last() == item@);
        out.append("- ");
        out.append(if item.is_checked {
            "[x]"
        } else {
            "[ ]"
        });
        out.append(" ");
        out.append(item.text.as_str());
        if let Some(issue_number) = item.issue_number {
            out.append(" (#");
            push_decimal(&mut out, issue_number);
            out.append(")");
        }
        out.append("\n");
        assert(out@ =~= before + rendered_item(item@));
        at += 1;
    }
    assert(all.take(at as int) == all);
    out
}

} // verus!
