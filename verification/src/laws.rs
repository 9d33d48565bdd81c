//! What holds of the engine whatever the records, the filters and the
//! commands: each law is proved from the definitions that the contracts use.

use vstd::prelude::*;
use crate::filters::{admits_all, has_row, is_selection, Criterion, FilterColumn};
use crate::marks::{lemma_same_marks, strictly_increasing};
use crate::model::LogReaderView;
use crate::record::Record;

verus! {

/// A record is in the filtered view if and only if it satisfies every
/// predicate in use.
pub proof fn lemma_selection_membership(
    events: Seq<Record>,
    criteria: Seq<Criterion>,
    rows: Seq<usize>,
    position: int,
)
    requires
        is_selection(events, criteria, rows),
        0 <= position < events.len(),
    ensures
        has_row(rows, position) <==> admits_all(criteria, events[position]),
{
    if has_row(rows, position) {
        let at = choose|at: int| 0 <= at < rows.len() && rows[at] == position;
        assert(admits_all(criteria, events[rows[at] as int]));
    }
    if admits_all(criteria, events[position]) {
        assert(has_row(rows, position));
    }
}

/// The records and the predicates in use decide the filtered view: there is
/// one view that they select, and no other.
pub proof fn lemma_selection_unique(
    events: Seq<Record>,
    criteria: Seq<Criterion>,
    rows: Seq<usize>,
    other: Seq<usize>,
)
    requires
        is_selection(events, criteria, rows),
        is_selection(events, criteria, other),
    ensures
        rows == other,
{
    let a = Seq::new(rows.len(), |i: int| rows[i] as u64);
    let b = Seq::new(other.len(), |i: int| other[i] as u64);
    assert forall|x: u64| a.to_set().contains(x) <==> b.to_set().contains(x) by {
        if a.contains(x) {
            let i = choose|i: int| 0 <= i < a.len() && a[i] == x;
            assert(admits_all(criteria, events[rows[i] as int]));
            assert(has_row(other, rows[i] as int));
            let j = choose|j: int| 0 <= j < other.len() && other[j] == rows[i] as int;
            assert(b[j] == x);
        }
        if b.contains(x) {
            let j = choose|j: int| 0 <= j < b.len() && b[j] == x;
            assert(admits_all(criteria, events[other[j] as int]));
            assert(has_row(rows, other[j] as int));
            let i = choose|i: int| 0 <= i < rows.len() && rows[i] == other[j] as int;
            assert(a[i] == x);
        }
    }
    assert(a.to_set() =~= b.to_set());
    lemma_same_marks(a, b);
    assert(a.len() == rows.len() && b.len() == other.len());
    assert forall|i: int| 0 <= i < rows.len() implies rows[i] == other[i] by {
        assert(a[i] == b[i]);
    }
    assert(rows =~= other);
}

/// One more predicate in use never makes the filtered view longer: where
/// `more` holds every predicate of `fewer`, each row that `more` selects is
/// among those that `fewer` selects.
pub proof fn lemma_more_criteria_fewer_rows(
    events: Seq<Record>,
    fewer: Seq<Criterion>,
    more: Seq<Criterion>,
    wide: Seq<usize>,
    narrow: Seq<usize>,
)
    requires
        is_selection(events, fewer, wide),
        is_selection(events, more, narrow),
        forall|k: int| 0 <= k < fewer.len() ==> more.contains(#[trigger] fewer[k]),
    ensures
        narrow.len() <= wide.len(),
        forall|i: int| 0 <= i < narrow.len() ==> wide.contains(#[trigger] narrow[i]),
{
    assert forall|i: int| 0 <= i < narrow.len() implies wide.contains(#[trigger] narrow[i]) by {
        let p = narrow[i] as int;
        assert(admits_all(more, events[p]));
        assert forall|k: int| 0 <= k < fewer.len() implies (#[trigger] fewer[k]).admits(
            events[p],
        ) by {
            assert(more.contains(fewer[k]));
            let m = choose|m: int| 0 <= m < more.len() && more[m] == fewer[k];
            assert(more[m].admits(events[p]));
        }
        assert(admits_all(fewer, events[p]));
        assert(has_row(wide, p));
        let w = choose|w: int| 0 <= w < wide.len() && wide[w] == p;
        assert(wide[w] == narrow[i]);
    }
    assert(narrow.no_duplicates());
    assert(wide.no_duplicates());
    narrow.unique_seq_to_set();
    wide.unique_seq_to_set();
    assert forall|x: usize| narrow.to_set().contains(x) implies wide.to_set().contains(x) by {
        let i = choose|i: int| 0 <= i < narrow.len() && narrow[i] == x;
        assert(wide.contains(narrow[i]));
    }
    vstd::set_lib::lemma_len_subset(narrow.to_set(), wide.to_set());
}

/// Adding one predicate at the end of those in use never makes the filtered
/// view longer.
pub proof fn lemma_added_criterion_fewer_rows(
    events: Seq<Record>,
    criteria: Seq<Criterion>,
    added: Criterion,
    wide: Seq<usize>,
    narrow: Seq<usize>,
)
    requires
        is_selection(events, criteria, wide),
        is_selection(events, criteria.push(added), narrow),
    ensures
        narrow.len() <= wide.len(),
{
    let more = criteria.push(added);
    assert forall|k: int| 0 <= k < criteria.len() implies more.contains(
        #[trigger] criteria[k],
    ) by {
        assert(more[k] == criteria[k]);
    }
    lemma_more_criteria_fewer_rows(events, criteria, more, wide, narrow);
}

/// Scrolling keeps a well-formed state well formed: afterwards the scroll
/// position lies between 0 and the greatest position that the view allows,
/// and the highlight on a row of the view.
pub proof fn lemma_scroll_keeps_bounds(view: LogReaderView, change: int)
    requires
        view.wf(),
    ensures
        view.scroll(change).wf(),
        0 <= view.scroll(change).scroll <= view.max_scroll(),
        view.scroll(change).highlight == view.highlight,
{
}

/// Moving the highlight keeps a well-formed state well formed: afterwards
/// the scroll position lies between 0 and the greatest position that the
/// view allows, and the highlight on a row of the view.
pub proof fn lemma_scroll_highlight_keeps_bounds(view: LogReaderView, change: int)
    requires
        view.wf(),
    ensures
        view.scroll_highlight(change).wf(),
        0 <= view.scroll_highlight(change).scroll <= view.max_scroll(),
        view.len() > 0 ==> 0 <= view.scroll_highlight(change).highlight < view.len(),
{
}

/// A jump keeps a well-formed state well formed and leaves the highlighted
/// row within the viewport.
pub proof fn lemma_scroll_to_keeps_bounds(view: LogReaderView, position: int)
    requires
        view.wf(),
    ensures
        view.scroll_to(position).wf(),
        view.scroll_to(position).coupled(),
{
}

/// Where the highlighted row lies within the viewport, it still does after
/// the highlight was moved.
pub proof fn lemma_highlight_stays_on_screen(view: LogReaderView, change: int)
    requires
        view.wf(),
        view.coupled(),
    ensures
        view.scroll_highlight(change).coupled(),
{
}

/// After the highlight was moved it lies within the viewport exactly where
/// its new row is in the viewport as it was, or in the viewport scrolled by
/// the same change.
pub proof fn lemma_highlight_on_screen_exactly(view: LogReaderView, change: int)
    requires
        view.wf(),
        view.len() > 0,
    ensures
        view.scroll_highlight(change).coupled() <==> {
            let target = view.limit_highlight(view.highlight - change);
            view.on_screen(target) || view.scroll(change).on_screen(target)
        },
{
}

/// Switching the mark of a record twice leaves the state as it was.
pub proof fn lemma_switch_mark_twice(view: LogReaderView, id: u64)
    ensures
        view.switch_mark(id).switch_mark(id) == view,
{
    let once = view.switch_mark(id);
    let twice = once.switch_mark(id);
    assert(twice.marks =~= view.marks);
}

/// The list of marks, kept in rising order, is the same after the mark of a
/// record was switched twice.
pub proof fn lemma_switch_mark_twice_listed(
    view: LogReaderView,
    id: u64,
    before: Seq<u64>,
    after: Seq<u64>,
)
    requires
        strictly_increasing(before),
        strictly_increasing(after),
        before.to_set() == view.marks,
        after.to_set() == view.switch_mark(id).switch_mark(id).marks,
    ensures
        after == before,
{
    lemma_switch_mark_twice(view, id);
    lemma_same_marks(after, before);
}

/// A mark outlives a change of the filters: the record stays marked where
/// the new filters hide it, and no jump from mark to mark lands on it while
/// it is hidden.
pub proof fn lemma_mark_outlives_filter(
    view: LogReaderView,
    id: u64,
    column: FilterColumn,
    text: Seq<char>,
    rows: Seq<usize>,
    reverse: bool,
    position: int,
)
    requires
        !view.marks.contains(id),
    ensures
        view.switch_mark(id).with_filter(column, text, rows).marks.contains(id),
        ({
            let filtered = view.switch_mark(id).with_filter(column, text, rows);
            !filtered.shows(id) && filtered.is_mark_target(reverse, position) ==> filtered.id_at(
                position,
            ) != id
        }),
{
    let filtered = view.switch_mark(id).with_filter(column, text, rows);
    if !filtered.shows(id) && filtered.is_mark_target(reverse, position) {
        assert(filtered.is_mark_stop(position));
        assert(0 <= position < filtered.len());
    }
}

/// Making the filtered view anew changes nothing in a well-formed state.
pub proof fn lemma_refilter_settled(view: LogReaderView, after: LogReaderView)
    requires
        view.wf(),
        view.refilters(after),
    ensures
        after == view,
{
    lemma_selection_unique(
        view.events,
        crate::filters::active_criteria(view.filters),
        view.rows,
        after.rows,
    );
}

} // verus!
