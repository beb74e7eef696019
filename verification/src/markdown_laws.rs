//! What holds between writing a checklist item and reading it back.

use vstd::prelude::*;
use crate::decimal::{decimal, lemma_decimal_is_plain, lemma_decimal_reads_back, lemma_parse_decimal};
use crate::markdown_parser::{
    advance,
    collected_items,
    first_close,
    issue_reference,
    item_from,
    last_marker,
    last_marker_before,
    marker_at,
    rendered,
    rendered_reference,
    scan,
    split_issue_suffix,
    MarkdownEventView,
    ScanState,
};
use crate::text::{lemma_fixed_is_trimmed, lemma_trimmed_is_fixed, trimmed};
use crate::todo::TodoItemView;

verus! {

/// The search for the last ` (#` finds a place where it stands when it
/// stands nowhere between that place and the limit of the search.
pub proof fn lemma_last_marker_before(s: Seq<char>, limit: int, at: int)
    requires
        marker_at(s, at),
        at <= limit,
        forall|other: int| at < other <= limit ==> !marker_at(s, other),
    ensures
        last_marker_before(s, limit) == Some(at),
    decreases limit - at,
{
    if at < limit {
        lemma_last_marker_before(s, limit - 1, at);
    }
}

/// The search for the first `)` finds a place where it stands when it
/// stands nowhere between the start of the search and that place.
pub proof fn lemma_first_close(s: Seq<char>, from: int, at: int)
    requires
        0 <= from <= at < s.len(),
        s[at] == ')',
        forall|other: int| from <= other < at ==> s[other] != ')',
    ensures
        first_close(s, from) == Some(at),
    decreases at - from,
{
    if from < at {
        lemma_first_close(s, from + 1, at);
    }
}

/// A reference written after trimmed text reads back as that text and the
/// number referred to.
pub proof fn written_reference_reads_back(text: Seq<char>, number: u64)
    requires
        trimmed(text) == text,
    ensures
        split_issue_suffix(text + rendered_reference(Some(number))) == (text, Some(number)),
{
    reveal_strlit(" (#");
    reveal_strlit(")");
    let digits = decimal(number as nat);
    let written = text + rendered_reference(Some(number));
    let at = text.len() as int;
    let close = at + 3 + digits.len();
    lemma_decimal_reads_back(number as nat);
    lemma_decimal_is_plain(number as nat);
    lemma_parse_decimal(number);
    assert(written.len() == close + 1);
    assert(written[at] == ' ');
    assert(written[at + 1] == '(');
    assert(written[at + 2] == '#');
    assert(written[close] == ')');
    assert forall|other: int| at + 3 <= other < close implies written[other] == digits[other - at
        - 3] by {}
    assert forall|other: int| at < other <= written.len() - 3 implies !marker_at(
        written,
        other,
    ) by {
        if other >= at + 3 {
            assert(written[other] == digits[other - at - 3]);
        }
    }
    lemma_last_marker_before(written, written.len() - 3, at);
    assert(last_marker(written) == Some(at));
    assert forall|other: int| at <= other < close implies written[other] != ')' by {
        if other >= at + 3 {
            assert(written[other] == digits[other - at - 3]);
        }
    }
    lemma_first_close(written, at, close);
    assert(written.subrange(at + 3, close) == digits);
    assert(written.take(at) == text);
    assert(issue_reference(written) == Some((at, number)));
}

/// What is written between the checkbox and the end of the line for an
/// item reads back as the item. This holds of an item whose text is not
/// empty and is trimmed, and which, where it tracks no issue, does not
/// itself end in what reads as a reference.
pub proof fn written_item_reads_back(item: TodoItemView)
    requires
        item.text.len() > 0,
        trimmed(item.text) == item.text,
        item.issue_number is None ==> issue_reference(item.text) is None,
    ensures
        item_from(item.is_checked, item.text + rendered_reference(item.issue_number)) == item,
{
    let written = item.text + rendered_reference(item.issue_number);
    match item.issue_number {
        Some(number) => {
            reveal_strlit(" (#");
            reveal_strlit(")");
            lemma_fixed_is_trimmed(item.text);
            assert(written[0] == item.text[0]);
            assert(written.last() == ')');
            lemma_trimmed_is_fixed(written);
            written_reference_reads_back(item.text, number);
        },
        None => {
            assert(written == item.text);
        },
    }
}

/// Whether what is written for `item` reads back as `item`: its text is
/// not empty and is trimmed, and, where it tracks no issue, does not itself
/// end in what reads as a reference.
pub open spec fn is_plain_item(item: TodoItemView) -> bool {
    &&& item.text.len() > 0
    &&& trimmed(item.text) == item.text
    &&& item.issue_number is None ==> issue_reference(item.text) is None
}

/// The reader's state after `events`, starting from `state`.
pub open spec fn scan_from(state: ScanState, events: Seq<MarkdownEventView>) -> ScanState
    decreases events.len(),
{
    if events.len() == 0 {
        state
    } else {
        advance(scan_from(state, events.drop_last()), events.last())
    }
}

/// Whether the reader is in no item: it holds no checkbox and no text.
pub open spec fn is_closed(state: ScanState) -> bool {
    state.pending is None && state.buffer.len() == 0
}

/// Reading from the start is reading from the state that holds nothing.
pub proof fn lemma_scan_from_start(events: Seq<MarkdownEventView>)
    ensures
        scan(events) == scan_from(
            ScanState { items: Seq::empty(), pending: None, buffer: Seq::empty() },
            events,
        ),
    decreases events.len(),
{
    if events.len() > 0 {
        lemma_scan_from_start(events.drop_last());
    }
}

/// Reading two runs of events one after the other is reading the second
/// from where the first has led.
pub proof fn lemma_scan_from_append(
    state: ScanState,
    first: Seq<MarkdownEventView>,
    second: Seq<MarkdownEventView>,
)
    ensures
        scan_from(state, first + second) == scan_from(scan_from(state, first), second),
    decreases second.len(),
{
    if second.len() == 0 {
        assert(first + second == first);
    } else {
        lemma_scan_from_append(state, first, second.drop_last());
        assert((first + second).drop_last() == first + second.drop_last());
        assert((first + second).last() == second.last());
    }
}

/// Whether no event of `events` is a checkbox.
pub open spec fn holds_no_checkbox(events: Seq<MarkdownEventView>) -> bool {
    forall|i: int| 0 <= i < events.len() ==> !(#[trigger] events[i] is TaskListMarker)
}

/// Outside an item the reader passes over everything but a checkbox.
pub proof fn lemma_gap_is_passed_over(state: ScanState, gap: Seq<MarkdownEventView>)
    requires
        is_closed(state),
        holds_no_checkbox(gap),
    ensures
        scan_from(state, gap) == state,
    decreases gap.len(),
{
    if gap.len() > 0 {
        let shorter = gap.drop_last();
        assert forall|i: int| 0 <= i < shorter.len() implies !(#[trigger] shorter[i]
            is TaskListMarker) by {
            assert(shorter[i] == gap[i]);
        }
        lemma_gap_is_passed_over(state, shorter);
        assert(!(gap[gap.len() - 1] is TaskListMarker));
    }
}

/// Whether `events` holds nothing but text, inline code and events that
/// the reader passes over.
pub open spec fn is_text_run(events: Seq<MarkdownEventView>) -> bool {
    forall|i: int|
        0 <= i < events.len() ==> {
            ||| #[trigger] events[i] is Text
            ||| events[i] is Code
            ||| events[i] is Other
        }
}

/// The text that the events of a text run hold, piece after piece.
pub open spec fn run_text(events: Seq<MarkdownEventView>) -> Seq<char>
    decreases events.len(),
{
    if events.len() == 0 {
        Seq::empty()
    } else {
        run_text(events.drop_last()) + (match events.last() {
            MarkdownEventView::Text(text) => text,
            MarkdownEventView::Code(text) => text,
            _ => Seq::empty(),
        })
    }
}

/// Within an item the reader gathers the text of a text run, whatever the
/// pieces it comes in.
pub proof fn lemma_text_run_is_gathered(state: ScanState, run: Seq<MarkdownEventView>)
    requires
        state.pending is Some,
        is_text_run(run),
    ensures
        scan_from(state, run).items == state.items,
        scan_from(state, run).pending == state.pending,
        scan_from(state, run).buffer == state.buffer + run_text(run),
    decreases run.len(),
{
    if run.len() > 0 {
        let shorter = run.drop_last();
        assert forall|i: int| 0 <= i < shorter.len() implies {
            ||| #[trigger] shorter[i] is Text
            ||| shorter[i] is Code
            ||| shorter[i] is Other
        } by {
            assert(shorter[i] == run[i]);
        }
        lemma_text_run_is_gathered(state, shorter);
        let last = run[run.len() - 1];
        assert(last is Text || last is Code || last is Other);
        assert(scan_from(state, run).buffer =~= state.buffer + run_text(run));
    } else {
        assert(state.buffer + run_text(run) =~= state.buffer);
    }
}

/// The events of one line of a task list: the checkbox, the text run of
/// the item, and the end of the list item.
pub open spec fn line_events(checked: bool, run: Seq<MarkdownEventView>) -> Seq<
    MarkdownEventView,
> {
    seq![MarkdownEventView::TaskListMarker(checked)] + run + seq![MarkdownEventView::ItemEnd]
}

/// A line read outside an item adds the item that its checkbox and its
/// text stand for, and leaves the reader outside an item again.
pub proof fn lemma_line_is_read(state: ScanState, checked: bool, run: Seq<MarkdownEventView>)
    requires
        is_closed(state),
        is_text_run(run),
        run_text(run).len() > 0,
    ensures
        scan_from(state, line_events(checked, run)) == (ScanState {
            items: state.items.push(item_from(checked, run_text(run))),
            pending: None,
            buffer: Seq::empty(),
        }),
{
    let open = seq![MarkdownEventView::TaskListMarker(checked)];
    let close = seq![MarkdownEventView::ItemEnd];
    assert(open.drop_last() =~= Seq::<MarkdownEventView>::empty());
    assert(close.drop_last() =~= Seq::<MarkdownEventView>::empty());
    let at_box = scan_from(state, open);
    assert(scan_from(state, open.drop_last()) == state);
    assert(at_box == advance(state, open.last()));
    lemma_text_run_is_gathered(at_box, run);
    let at_text = scan_from(at_box, run);
    assert(at_text.buffer =~= run_text(run));
    lemma_scan_from_append(state, open, run);
    lemma_scan_from_append(state, open + run, close);
    let at_end = scan_from(at_text, close);
    assert(scan_from(at_text, close.drop_last()) == at_text);
    assert(at_end == advance(at_text, close.last()));
}

/// The events of a task list: before, between and after the lines of
/// `items` stand the events of `gaps`, and the line of each item holds the
/// text run that `runs` gives for it.
pub open spec fn listing_events(
    items: Seq<TodoItemView>,
    runs: Seq<Seq<MarkdownEventView>>,
    gaps: Seq<Seq<MarkdownEventView>>,
) -> Seq<MarkdownEventView>
    decreases items.len(),
{
    if items.len() == 0 || runs.len() != items.len() || gaps.len() != items.len() + 1 {
        if gaps.len() > 0 {
            gaps[0]
        } else {
            Seq::empty()
        }
    } else {
        listing_events(items.drop_last(), runs.drop_last(), gaps.drop_last()) + line_events(
            items.last().is_checked,
            runs.last(),
        ) + gaps.last()
    }
}

/// Whether `runs` and `gaps` are the events of a task list of `items`:
/// each item is plain, its text run holds, in whatever pieces, what is
/// written for the item, and no gap holds a checkbox.
pub open spec fn is_listing(
    items: Seq<TodoItemView>,
    runs: Seq<Seq<MarkdownEventView>>,
    gaps: Seq<Seq<MarkdownEventView>>,
) -> bool {
    &&& runs.len() == items.len()
    &&& gaps.len() == items.len() + 1
    &&& forall|i: int|
        0 <= i < items.len() ==> {
            &&& is_plain_item(#[trigger] items[i])
            &&& is_text_run(runs[i])
            &&& run_text(runs[i]) == items[i].text + rendered_reference(items[i].issue_number)
        }
    &&& forall|j: int| 0 <= j < gaps.len() ==> holds_no_checkbox(#[trigger] gaps[j])
}

/// Reading the events of a task list of plain items gives the items back,
/// whatever stands between the lines and in whatever pieces the text of a
/// line comes; and writing what was read gives the text that stands for
/// the items.
pub proof fn listing_reads_back(
    items: Seq<TodoItemView>,
    runs: Seq<Seq<MarkdownEventView>>,
    gaps: Seq<Seq<MarkdownEventView>>,
)
    requires
        is_listing(items, runs, gaps),
    ensures
        scan(listing_events(items, runs, gaps)) == (ScanState {
            items,
            pending: None,
            buffer: Seq::empty(),
        }),
        collected_items(listing_events(items, runs, gaps)) == items,
        rendered(collected_items(listing_events(items, runs, gaps))) == rendered(items),
    decreases items.len(),
{
    let start = ScanState { items: Seq::empty(), pending: None, buffer: Seq::empty() };
    let events = listing_events(items, runs, gaps);
    lemma_scan_from_start(events);
    if items.len() == 0 {
        lemma_gap_is_passed_over(start, gaps[0]);
        assert(items == Seq::<TodoItemView>::empty());
    } else {
        let item = items.last();
        let earlier = listing_events(items.drop_last(), runs.drop_last(), gaps.drop_last());
        assert(is_listing(items.drop_last(), runs.drop_last(), gaps.drop_last())) by {
            assert forall|i: int| 0 <= i < items.drop_last().len() implies {
                &&& is_plain_item(#[trigger] items.drop_last()[i])
                &&& is_text_run(runs.drop_last()[i])
                &&& run_text(runs.drop_last()[i]) == items.drop_last()[i].text
                    + rendered_reference(items.drop_last()[i].issue_number)
            } by {
                assert(items.drop_last()[i] == items[i]);
                assert(runs.drop_last()[i] == runs[i]);
            }
            assert forall|j: int| 0 <= j < gaps.drop_last().len() implies holds_no_checkbox(
                #[trigger] gaps.drop_last()[j],
            ) by {
                assert(gaps.drop_last()[j] == gaps[j]);
            }
        }
        listing_reads_back(items.drop_last(), runs.drop_last(), gaps.drop_last());
        lemma_scan_from_start(earlier);
        let before = scan_from(start, earlier);
        let line = line_events(item.is_checked, runs.last());
        assert(is_plain_item(items[items.len() - 1]));
        assert(runs.last() == runs[items.len() - 1]);
        written_item_reads_back(item);
        lemma_line_is_read(before, item.is_checked, runs.last());
        assert(holds_no_checkbox(gaps[gaps.len() - 1]));
        let after = scan_from(before, line);
        lemma_gap_is_passed_over(after, gaps.last());
        lemma_scan_from_append(start, earlier, line);
        lemma_scan_from_append(start, earlier + line, gaps.last());
        assert(items.drop_last().push(item) == items);
    }
}

} // verus!
