//! The state of the viewer as a mathematical value, and what each command
//! makes of it. The contracts of the engine are stated over this value.

use vstd::prelude::*;
use crate::filters::{active_criteria, is_selection, FilterColumn, FilterTexts};
use crate::record::Record;
use crate::text::contains_text;

verus! {

/// The state of the viewer.
pub struct LogReaderView {
    /// The name of the log that is shown.
    pub current_log_file_name: Seq<char>,
    /// All records, in the order in which they were loaded.
    pub events: Seq<Record>,
    /// The texts of the column filters.
    pub filters: FilterTexts,
    /// The filtered view: the storage positions of the records that pass the
    /// filters, in rising order.
    pub rows: Seq<usize>,
    /// The highlighted position in the filtered view.
    pub highlight: int,
    /// The position in the filtered view of the topmost row shown.
    pub scroll: int,
    /// The number of rows that the viewport has room for.
    pub rows_visible: int,
    /// The identifiers of the marked records.
    pub marks: Set<u64>,
    /// The storage position of the record whose details are shown.
    pub detail: Option<int>,
    pub mouse_on_table: bool,
    pub searching_bar: bool,
    pub searching_text: Seq<char>,
    pub show_help: bool,
}

impl LogReaderView {
    /// The state in which the viewer starts: every record shown, nothing
    /// filtered, marked or searched for.
    pub open spec fn initial(file_name: Seq<char>, events: Seq<Record>) -> LogReaderView {
        LogReaderView {
            current_log_file_name: file_name,
            events,
            filters: FilterTexts::blank(),
            rows: Seq::new(events.len(), |p: int| p as usize),
            highlight: 0,
            scroll: 0,
            rows_visible: 0,
            marks: Set::empty(),
            detail: None,
            mouse_on_table: false,
            searching_bar: false,
            searching_text: Seq::empty(),
            show_help: false,
        }
    }

    /// The number of rows in the filtered view.
    pub open spec fn len(self) -> int {
        self.rows.len() as int
    }

    /// The greatest scroll position: the topmost row is never nearer to the
    /// end of the view than a viewport and one row.
    pub open spec fn max_scroll(self) -> int {
        if self.len() - self.rows_visible - 1 > 0 {
            self.len() - self.rows_visible - 1
        } else {
            0
        }
    }

    /// The scroll position lies within its bounds.
    pub open spec fn scroll_in_bounds(self) -> bool {
        0 <= self.scroll <= self.max_scroll()
    }

    /// The highlight lies on a row of the view, or at 0 where the view is
    /// empty.
    pub open spec fn highlight_in_bounds(self) -> bool {
        &&& 0 <= self.highlight
        &&& self.len() > 0 ==> self.highlight < self.len()
        &&& self.len() == 0 ==> self.highlight == 0
    }

    /// The highlighted row lies within the viewport.
    pub open spec fn coupled(self) -> bool {
        self.scroll <= self.highlight <= self.scroll + self.rows_visible
    }

    /// The state is well formed: the filtered view is the one that the
    /// filters select, and highlight, scroll position and detail lie within
    /// their bounds.
    pub open spec fn wf(self) -> bool {
        &&& is_selection(self.events, active_criteria(self.filters), self.rows)
        &&& self.highlight_in_bounds()
        &&& self.scroll_in_bounds()
        &&& 0 <= self.rows_visible <= u32::MAX
        &&& self.detail matches Some(p) ==> 0 <= p < self.events.len()
    }

    /// `target` brought into the bounds of the scroll position.
    pub open spec fn limit_scroll(self, target: int) -> int {
        if target <= 0 {
            0
        } else if target > self.max_scroll() {
            self.max_scroll()
        } else {
            target
        }
    }

    /// `target` brought onto a row of the view.
    pub open spec fn limit_highlight(self, target: int) -> int {
        if self.len() == 0 || target <= 0 {
            0
        } else if target >= self.len() {
            self.len() - 1
        } else {
            target
        }
    }

    /// `position` lies within the viewport.
    pub open spec fn on_screen(self, position: int) -> bool {
        self.scroll <= position <= self.scroll + self.rows_visible
    }

    /// The state after the viewport was moved by `change` rows towards the
    /// start of the view.
    pub open spec fn scroll(self, change: int) -> LogReaderView {
        LogReaderView { scroll: self.limit_scroll(self.scroll - change), ..self }
    }

    /// The state after the highlight was moved by `change` rows towards the
    /// start of the view; the viewport follows where the highlight has left
    /// it.
    pub open spec fn scroll_highlight(self, change: int) -> LogReaderView {
        if self.len() == 0 {
            self
        } else {
            let target = self.limit_highlight(self.highlight - change);
            let moved = LogReaderView { highlight: target, ..self };
            if self.on_screen(target) {
                moved
            } else {
                moved.scroll(change)
            }
        }
    }

    /// Half the viewport, rounded up.
    pub open spec fn half_page(self) -> int {
        (self.rows_visible + 1) / 2
    }

    /// The state after a jump to `position`: the row is highlighted and
    /// stands in the middle of the viewport, as far as the bounds allow.
    pub open spec fn scroll_to(self, position: int) -> LogReaderView {
        let target = self.limit_highlight(position);
        (LogReaderView { highlight: target, scroll: target, ..self }).scroll(self.half_page())
    }

    /// The state after the mouse came to rest on the given row of the
    /// viewport.
    pub open spec fn hover(self, row: int) -> LogReaderView {
        LogReaderView { highlight: self.limit_highlight(self.scroll + row), ..self }
    }

    /// The state after the viewport got room for `rows_visible` rows.
    pub open spec fn resized(self, rows_visible: int) -> LogReaderView {
        let sized = LogReaderView { rows_visible, ..self };
        LogReaderView { scroll: sized.limit_scroll(self.scroll), ..sized }
    }

    /// The state after the filtered view was replaced by `rows`: highlight
    /// and scroll position are brought into the new bounds.
    pub open spec fn with_rows(self, rows: Seq<usize>) -> LogReaderView {
        let shown = LogReaderView { rows, ..self };
        LogReaderView {
            highlight: shown.limit_highlight(self.highlight),
            scroll: shown.limit_scroll(self.scroll),
            ..shown
        }
    }

    /// The state after the filter of `column` got the text `text`, where
    /// `rows` is the view that the new filters select.
    pub open spec fn with_filter(
        self,
        column: FilterColumn,
        text: Seq<char>,
        rows: Seq<usize>,
    ) -> LogReaderView {
        (LogReaderView { filters: self.filters.set(column, text), ..self }).with_rows(rows)
    }

    /// The record at a position of the filtered view.
    pub open spec fn record_at(self, position: int) -> Record {
        self.events[self.rows[position] as int]
    }

    /// The identifier of the record at a position of the filtered view.
    pub open spec fn id_at(self, position: int) -> u64 {
        self.record_at(position).id
    }

    /// The identifiers of the records of the filtered view, in its order.
    pub open spec fn visible_ids(self) -> Seq<u64> {
        Seq::new(self.rows.len(), |position: int| self.id_at(position))
    }

    /// The filtered view holds a record with the identifier.
    pub open spec fn shows(self, id: u64) -> bool {
        exists|position: int| 0 <= position < self.len() && self.id_at(position) == id
    }

    /// `position` is the first position of the filtered view whose record has
    /// the identifier.
    pub open spec fn is_position_of(self, id: u64, position: int) -> bool {
        &&& 0 <= position < self.len()
        &&& self.id_at(position) == id
        &&& forall|q: int| 0 <= q < position ==> self.id_at(q) != id
    }

    /// The message of the record at `position` holds the text searched for.
    pub open spec fn is_hit(self, position: int) -> bool {
        &&& 0 <= position < self.len()
        &&& contains_text(self.record_at(position).log_message@, self.searching_text)
    }

    /// `position` is the first hit after the highlight.
    pub open spec fn is_next_hit(self, position: int) -> bool {
        &&& self.highlight < position
        &&& self.is_hit(position)
        &&& forall|q: int| self.highlight < q < position ==> !self.is_hit(q)
    }

    /// `position` is the last hit before the highlight.
    pub open spec fn is_prev_hit(self, position: int) -> bool {
        &&& position < self.highlight
        &&& self.is_hit(position)
        &&& forall|q: int| position < q < self.highlight ==> !self.is_hit(q)
    }

    /// `after` is the state after the search for the next hit: a jump to it,
    /// or no change where there is none.
    pub open spec fn finds_next(self, after: LogReaderView) -> bool {
        &&& forall|p: int| #[trigger] self.is_next_hit(p) ==> after == self.scroll_to(p)
        &&& (forall|p: int| !self.is_next_hit(p)) ==> after == self
    }

    /// `after` is the state after the search for the previous hit: a jump to
    /// it, or no change where there is none.
    pub open spec fn finds_prev(self, after: LogReaderView) -> bool {
        &&& forall|p: int| #[trigger] self.is_prev_hit(p) ==> after == self.scroll_to(p)
        &&& (forall|p: int| !self.is_prev_hit(p)) ==> after == self
    }

    /// The state after the mark of the record `id` was switched.
    pub open spec fn switch_mark(self, id: u64) -> LogReaderView {
        if self.marks.contains(id) {
            LogReaderView { marks: self.marks.remove(id), ..self }
        } else {
            LogReaderView { marks: self.marks.insert(id), ..self }
        }
    }

    /// The state after the mark of the highlighted record was switched.
    pub open spec fn switch_mark_highlighted(self) -> LogReaderView {
        if 0 <= self.highlight < self.len() {
            self.switch_mark(self.id_at(self.highlight))
        } else {
            self
        }
    }

    /// `position` is where a jump from mark to mark can land: the first
    /// position of a marked record that the filtered view holds.
    pub open spec fn is_mark_stop(self, position: int) -> bool {
        &&& self.is_position_of(self.id_at(position), position)
        &&& self.marks.contains(self.id_at(position))
    }

    /// `position` is the nearest stop after the highlight or, where no stop
    /// comes after it, the first stop of the view.
    pub open spec fn is_next_stop(self, position: int) -> bool {
        &&& self.is_mark_stop(position)
        &&& if position > self.highlight {
            forall|q: int| self.highlight < q < position ==> !self.is_mark_stop(q)
        } else {
            &&& forall|q: int| self.highlight < q ==> !self.is_mark_stop(q)
            &&& forall|q: int| q < position ==> !self.is_mark_stop(q)
        }
    }

    /// `position` is the nearest stop before the highlight or, where no stop
    /// comes before it, the last stop of the view.
    pub open spec fn is_prev_stop(self, position: int) -> bool {
        &&& self.is_mark_stop(position)
        &&& if position < self.highlight {
            forall|q: int| position < q < self.highlight ==> !self.is_mark_stop(q)
        } else {
            &&& forall|q: int| q < self.highlight ==> !self.is_mark_stop(q)
            &&& forall|q: int| position < q ==> !self.is_mark_stop(q)
        }
    }

    /// `stops` lists the stops of the view, each with the identifier of its
    /// record, in the rising order of the identifiers.
    pub open spec fn lists_stops(self, stops: Seq<(u64, u64)>) -> bool {
        &&& forall|k: int|
            0 <= k < stops.len() ==> self.is_mark_stop((#[trigger] stops[k]).0 as int)
                && self.id_at(stops[k].0 as int) == stops[k].1
        &&& forall|i: int, j: int| 0 <= i < j < stops.len() ==> stops[i].1 < stops[j].1
        &&& forall|p: int| #[trigger]
            self.is_mark_stop(p) ==> exists|k: int| 0 <= k < stops.len() && stops[k].0 == p
    }

    /// The state after the details of the highlighted record were opened.
    pub open spec fn open_detail(self) -> LogReaderView {
        if 0 <= self.highlight < self.len() {
            LogReaderView { detail: Some(self.rows[self.highlight] as int), ..self }
        } else {
            self
        }
    }

    /// `position` is where a jump to the next mark lands, backwards where
    /// `reverse` is set.
    pub open spec fn is_mark_target(self, reverse: bool, position: int) -> bool {
        if reverse {
            self.is_prev_stop(position)
        } else {
            self.is_next_stop(position)
        }
    }

    /// `after` is the state after a jump to the next mark, backwards where
    /// `reverse` is set: a jump to where it lands, or no change where the
    /// view has no stop.
    pub open spec fn lands_on_mark(self, reverse: bool, after: LogReaderView) -> bool {
        &&& forall|p: int| #[trigger] self.is_mark_target(reverse, p) ==> after == self.scroll_to(p)
        &&& (forall|p: int| !self.is_mark_target(reverse, p)) ==> after == self
    }

    /// `after` is the state after the filter of `column` got the text `text`:
    /// its view is the one that the new filters select.
    pub open spec fn filters_by(
        self,
        column: FilterColumn,
        text: Seq<char>,
        after: LogReaderView,
    ) -> bool {
        &&& after == self.with_filter(column, text, after.rows)
        &&& is_selection(after.events, active_criteria(after.filters), after.rows)
    }

    /// `after` is the state after the filtered view was made anew from the
    /// filters as they are.
    pub open spec fn refilters(self, after: LogReaderView) -> bool {
        &&& after == self.with_rows(after.rows)
        &&& is_selection(after.events, active_criteria(after.filters), after.rows)
    }
}

} // verus!
