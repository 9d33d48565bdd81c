//! The engine itself: the records, the filtered view over them, the
//! highlighted row, the scroll position and the marks.

use vstd::prelude::*;
use crate::filters::{
    active_criteria, active_predicates, admits_all, has_row, select, Criterion, FilterColumn,
    FilterTexts, MyFilters,
};
use crate::marks::{add_mark, is_marked, remove_mark, strictly_increasing};
use crate::model::LogReaderView;
use crate::record::Record;
use crate::text::contains;

verus! {

/// The viewer's state. Its value as the contracts see it is a
/// [`LogReaderView`].
#[derive(Debug)]
pub struct LogReader {
    current_log_file_name: String,
    events: Vec<Record>,
    events_filtered: Vec<usize>,
    highlighted_scroll_offset: usize,
    scroll_value: usize,
    rows_visible: u32,
    selected_rows: Vec<u64>,
    mouse_on_table: bool,
    view_detail: Option<usize>,
    filters: MyFilters,
    searching_bar: bool,
    searching_text: String,
    show_help: bool,
}

impl View for LogReader {
    type V = LogReaderView;

    closed spec fn view(&self) -> LogReaderView {
        LogReaderView {
            current_log_file_name: self.current_log_file_name@,
            events: self.events@,
            filters: self.filters@,
            rows: self.events_filtered@,
            highlight: self.highlighted_scroll_offset as int,
            scroll: self.scroll_value as int,
            rows_visible: self.rows_visible as int,
            marks: self.selected_rows@.to_set(),
            detail: match self.view_detail {
                Some(p) => Some(p as int),
                None => None,
            },
            mouse_on_table: self.mouse_on_table,
            searching_bar: self.searching_bar,
            searching_text: self.searching_text@,
            show_help: self.show_help,
        }
    }
}

impl LogReader {
    /// The state is well formed, and the marks are kept in rising order.
    pub closed spec fn wf(&self) -> bool {
        &&& self@.wf()
        &&& strictly_increasing(self.selected_rows@)
    }

    /// A well-formed viewer has a well-formed value.
    pub proof fn lemma_wf(&self)
        requires
            self.wf(),
        ensures
            self@.wf(),
    {
    }

    /// The viewer at its start: it shows every record of `events`.
    pub fn new(file_name: String, events: Vec<Record>) -> (reader: LogReader)
        ensures
            reader.wf(),
            reader@ == LogReaderView::initial(file_name@, events@),
    {
        let mut rows: Vec<usize> = Vec::new();
        let mut p: usize = 0;
        while p < events.len()
            invariant
                p <= events.len(),
                rows@ == Seq::new(p as nat, |q: int| q as usize),
            decreases events.len() - p,
        {
            rows.push(p);
            p = p + 1;
            assert(rows@ =~= Seq::new(p as nat, |q: int| q as usize));
        }
        let reader = LogReader {
            current_log_file_name: file_name,
            events,
            events_filtered: rows,
            highlighted_scroll_offset: 0,
            scroll_value: 0,
            rows_visible: 0,
            selected_rows: Vec::new(),
            mouse_on_table: false,
            view_detail: None,
            filters: MyFilters::default(),
            searching_bar: false,
            searching_text: String::new(),
            show_help: false,
        };
        proof {
            assert(reader.selected_rows@.to_set() =~= Set::<u64>::empty());
            assert(active_criteria(FilterTexts::blank()) =~= Seq::<Criterion>::empty());
            assert forall|q: int|
                0 <= q < reader@.events.len() && admits_all(
                    active_criteria(reader@.filters),
                    #[trigger] reader@.events[q],
                ) implies has_row(reader@.rows, q) by {
                assert(reader@.rows[q] == q);
            }
        }
        reader
    }

    /// The name of the log, for the window's title.
    pub fn title(&self) -> (title: String)
        ensures
            title@ == "Log Reader - "@ + self@.current_log_file_name,
    {
        let mut title = "Log Reader - ".to_owned();
        title.append(self.current_log_file_name.as_str());
        title
    }

    /// All records, in the order in which they were loaded.
    pub fn events(&self) -> (events: &Vec<Record>)
        ensures
            events@ == self@.events,
    {
        &self.events
    }

    /// The filtered view: the storage positions of the records shown.
    pub fn events_filtered(&self) -> (rows: &Vec<usize>)
        ensures
            rows@ == self@.rows,
    {
        &self.events_filtered
    }

    /// The highlighted position in the filtered view.
    pub fn highlighted_scroll_offset(&self) -> (highlight: usize)
        ensures
            highlight == self@.highlight,
    {
        self.highlighted_scroll_offset
    }

    /// The position in the filtered view of the topmost row shown.
    pub fn scroll_value(&self) -> (scroll: usize)
        ensures
            scroll == self@.scroll,
    {
        self.scroll_value
    }

    /// The number of rows that the viewport has room for.
    pub fn rows_visible(&self) -> (rows_visible: u32)
        ensures
            rows_visible == self@.rows_visible,
    {
        self.rows_visible
    }

    /// The identifiers of the marked records, in rising order.
    pub fn selected_rows(&self) -> (marks: &Vec<u64>)
        requires
            self.wf(),
        ensures
            strictly_increasing(marks@),
            marks@.to_set() == self@.marks,
    {
        &self.selected_rows
    }

    /// The texts of the column filters.
    pub fn filters(&self) -> (filters: &MyFilters)
        ensures
            filters@ == self@.filters,
    {
        &self.filters
    }

    /// The storage position of the record whose details are shown.
    pub fn view_detail(&self) -> (detail: Option<usize>)
        ensures
            detail is Some <==> self@.detail is Some,
            detail matches Some(p) ==> self@.detail == Some(p as int),
    {
        self.view_detail
    }

    /// Whether the search bar is open.
    pub fn searching_bar(&self) -> (open: bool)
        ensures
            open == self@.searching_bar,
    {
        self.searching_bar
    }

    /// The text searched for.
    pub fn searching_text(&self) -> (text: &str)
        ensures
            text@ == self@.searching_text,
    {
        self.searching_text.as_str()
    }

    /// Whether the help is shown.
    pub fn show_help(&self) -> (shown: bool)
        ensures
            shown == self@.show_help,
    {
        self.show_help
    }

    /// Whether the mouse is over the table.
    pub fn mouse_on_table(&self) -> (over: bool)
        ensures
            over == self@.mouse_on_table,
    {
        self.mouse_on_table
    }

    /// `target` brought into the bounds of the scroll position.
    fn limit_scroll(&self, target: i128) -> (limited: usize)
        ensures
            limited == self@.limit_scroll(target as int),
    {
        let len: usize = self.events_filtered.len();
        let room: usize = self.rows_visible as usize;
        let max: usize = if len > room && len - room > 1 {
            len - room - 1
        } else {
            0
        };
        if target <= 0 {
            0
        } else if target > max as i128 {
            max
        } else {
            target as usize
        }
    }

    /// `target` brought onto a row of the view.
    fn limit_highlight(&self, target: i128) -> (limited: usize)
        ensures
            limited == self@.limit_highlight(target as int),
    {
        let len: usize = self.events_filtered.len();
        if len == 0 || target <= 0 {
            0
        } else if target >= len as i128 {
            len - 1
        } else {
            target as usize
        }
    }

    /// Moves the viewport by `change` rows towards the start of the view.
    /// The change is far from the ends of `i128`, so that the new position
    /// can be worked out in it.
    fn scroll_by(&mut self, change: i128)
        requires
            old(self).wf(),
            -0x1_0000_0000_0000_0000_0000 < change < 0x1_0000_0000_0000_0000_0000,
        ensures
            final(self).wf(),
            final(self)@ == old(self)@.scroll(change as int),
    {
        let target: i128 = self.scroll_value as i128 - change;
        self.scroll_value = self.limit_scroll(target);
    }

    /// Moves the highlight by `change` rows towards the start of the view,
    /// and the viewport after it where the highlight has left it. The change
    /// is far from the ends of `i128`.
    fn scroll_highlight_by(&mut self, change: i128)
        requires
            old(self).wf(),
            -0x1_0000_0000_0000_0000_0000 < change < 0x1_0000_0000_0000_0000_0000,
        ensures
            final(self).wf(),
            final(self)@ == old(self)@.scroll_highlight(change as int),
    {
        if self.events_filtered.len() == 0 {
            return ;
        }
        let target: usize = self.limit_highlight(self.highlighted_scroll_offset as i128 - change);
        self.highlighted_scroll_offset = target;
        if target < self.scroll_value || target as i128 > self.scroll_value as i128
            + self.rows_visible as i128 {
            self.scroll_by(change);
        }
    }

    /// Moves the viewport by `change` rows towards the start of the view: a
    /// positive `change` scrolls towards earlier rows. The scroll position
    /// stays between 0 and the greatest position that the view allows.
    pub fn scroll(&mut self, change: i64)
        requires
            old(self).wf(),
        ensures
            final(self).wf(),
            final(self)@ == old(self)@.scroll(change as int),
            final(self)@.scroll_in_bounds(),
            final(self)@.highlight_in_bounds(),
    {
        self.scroll_by(change as i128);
    }

    /// Moves the highlight by `change` rows towards the start of the view,
    /// staying on a row of the view. Where that takes the highlight out of
    /// the viewport, the viewport is scrolled by `change` as well. Nothing
    /// moves while the view is empty.
    pub fn scroll_highlight(&mut self, change: i64)
        requires
            old(self).wf(),
        ensures
            final(self).wf(),
            final(self)@ == old(self)@.scroll_highlight(change as int),
            final(self)@.scroll_in_bounds(),
            final(self)@.highlight_in_bounds(),
    {
        self.scroll_highlight_by(change as i128);
    }

    /// Jumps to `position` of the filtered view: the row is highlighted and
    /// brought to the middle of the viewport, as far as the bounds allow. A
    /// position past the end counts as the last row.
    pub fn scroll_to(&mut self, position: u64)
        requires
            old(self).wf(),
        ensures
            final(self).wf(),
            final(self)@ == old(self)@.scroll_to(position as int),
    {
        let target: usize = self.limit_highlight(position as i128);
        self.scroll_value = target;
        self.highlighted_scroll_offset = target;
        let half: u32 = self.rows_visible / 2 + self.rows_visible % 2;
        self.scroll_value = self.limit_scroll(target as i128 - half as i128);
    }

    /// Moves the highlight to where the slider was put. The slider counts
    /// from the end of the view: its value is the number of rows from the
    /// wanted scroll position to the end, and one.
    pub fn move_slider(&mut self, value: i64)
        requires
            old(self).wf(),
        ensures
            final(self).wf(),
            final(self)@ == old(self)@.scroll_highlight(
                old(self)@.scroll - (old(self)@.len() - (value - 1)),
            ),
    {
        let target: i128 = self.events_filtered.len() as i128 - (value as i128 - 1);
        self.scroll_highlight_by(self.scroll_value as i128 - target);
    }

    /// Gives the viewport room for `rows_visible` rows and brings the scroll
    /// position into the new bounds.
    pub fn resize(&mut self, rows_visible: u32)
        requires
            old(self).wf(),
        ensures
            final(self).wf(),
            final(self)@ == old(self)@.resized(rows_visible as int),
    {
        self.rows_visible = rows_visible;
        self.scroll_value = self.limit_scroll(self.scroll_value as i128);
    }

    /// Highlights the row under the mouse: the given row of the viewport,
    /// counted from the topmost row shown.
    pub fn hover(&mut self, row: u64)
        requires
            old(self).wf(),
        ensures
            final(self).wf(),
            final(self)@ == old(self)@.hover(row as int),
    {
        self.highlighted_scroll_offset = self.limit_highlight(
            self.scroll_value as i128 + row as i128,
        );
    }

    /// The record at a position of the filtered view.
    pub fn record_at(&self, position: usize) -> (record: &Record)
        requires
            self.wf(),
            position < self@.len(),
        ensures
            *record == self@.record_at(position as int),
    {
        &self.events[self.events_filtered[position]]
    }

    /// The identifier of the record at a position of the filtered view, or 0
    /// where the view has no such position.
    pub fn scroll_value_to_row_id(&self, scroll_value: u64) -> (id: u64)
        requires
            self.wf(),
        ensures
            id == if scroll_value < self@.len() {
                self@.id_at(scroll_value as int)
            } else {
                0
            },
    {
        if scroll_value < self.events_filtered.len() as u64 {
            self.record_at(scroll_value as usize).id
        } else {
            0
        }
    }

    /// The identifiers of the records of the filtered view, in its order.
    pub fn visible_ids(&self) -> (ids: Vec<u64>)
        requires
            self.wf(),
        ensures
            ids@ == self@.visible_ids(),
    {
        let mut ids: Vec<u64> = Vec::new();
        let mut p: usize = 0;
        while p < self.events_filtered.len()
            invariant
                self.wf(),
                p <= self@.len(),
                ids@.len() == p,
                forall|q: int| 0 <= q < p ==> ids@[q] == self@.id_at(q),
            decreases self@.len() - p,
        {
            ids.push(self.record_at(p).id);
            p = p + 1;
        }
        assert(ids@ =~= self@.visible_ids());
        ids
    }

    /// Marks the record `row_id`.
    pub fn add_mark(&mut self, row_id: u64)
        requires
            old(self).wf(),
        ensures
            final(self).wf(),
            final(self)@ == (LogReaderView {
                marks: old(self)@.marks.insert(row_id),
                ..old(self)@
            }),
    {
        add_mark(&mut self.selected_rows, row_id);
    }

    /// Takes the mark off the record `row_idx`, where it has one.
    pub fn remove_mark(&mut self, row_idx: u64)
        requires
            old(self).wf(),
        ensures
            final(self).wf(),
            final(self)@ == (LogReaderView {
                marks: old(self)@.marks.remove(row_idx),
                ..old(self)@
            }),
    {
        remove_mark(&mut self.selected_rows, row_idx);
    }

    /// Switches the mark of the record `row_idx`: a marked record loses its
    /// mark, any other gets one. The record need not be in the filtered
    /// view.
    pub fn switch_mark(&mut self, row_idx: u64)
        requires
            old(self).wf(),
        ensures
            final(self).wf(),
            final(self)@ == old(self)@.switch_mark(row_idx),
    {
        if is_marked(&self.selected_rows, row_idx) {
            self.remove_mark(row_idx);
        } else {
            self.add_mark(row_idx);
        }
    }

    /// Switches the mark of the highlighted record. Nothing happens while the
    /// view is empty.
    pub fn switch_mark_highlighted_offset(&mut self)
        requires
            old(self).wf(),
        ensures
            final(self).wf(),
            final(self)@ == old(self)@.switch_mark_highlighted(),
    {
        if self.highlighted_scroll_offset < self.events_filtered.len() {
            let row_idx: u64 = self.record_at(self.highlighted_scroll_offset).id;
            self.switch_mark(row_idx);
        }
    }

    /// The first position of the filtered view whose record has the
    /// identifier `row_idx`, where the view holds such a record.
    pub fn get_row_idx_scroll_idx(&self, row_idx: u64) -> (scroll_idx: Option<u64>)
        requires
            self.wf(),
        ensures
            scroll_idx is Some <==> self@.shows(row_idx),
            scroll_idx matches Some(p) ==> self@.is_position_of(row_idx, p as int),
    {
        let mut p: usize = 0;
        while p < self.events_filtered.len()
            invariant
                self.wf(),
                p <= self@.len(),
                forall|q: int| 0 <= q < p ==> self@.id_at(q) != row_idx,
            decreases self@.len() - p,
        {
            if self.record_at(p).id == row_idx {
                assert(0 <= p < self@.len() && self@.id_at(p as int) == row_idx);
                return Some(p as u64);
            }
            p = p + 1;
        }
        None
    }

    /// The stops of the jump from mark to mark: for each marked record that
    /// the filtered view holds, its position in the view and its identifier,
    /// in the rising order of the identifiers. Marks on records that the
    /// filters hide are passed over.
    pub fn get_valid_scrollables(&self) -> (stops: Vec<(u64, u64)>)
        requires
            self.wf(),
        ensures
            self@.lists_stops(stops@),
    {
        let mut stops: Vec<(u64, u64)> = Vec::new();
        let mut m: usize = 0;
        while m < self.selected_rows.len()
            invariant
                self.wf(),
                m <= self.selected_rows@.len(),
                stops_of_marks(self@, self.selected_rows@, m as int, stops@),
            decreases self.selected_rows@.len() - m,
        {
            let row_id: u64 = self.selected_rows[m];
            let ghost before = stops@;
            match self.get_row_idx_scroll_idx(row_id) {
                Some(scroll_id) => {
                    stops.push((scroll_id, row_id));
                    proof {
                        lemma_stops_grow(
                            self@,
                            self.selected_rows@,
                            m as int,
                            before,
                            (scroll_id, row_id),
                        );
                    }
                },
                None => {
                    proof {
                        lemma_stops_pass(self@, self.selected_rows@, m as int, before);
                    }
                },
            }
            m = m + 1;
        }
        proof {
            lemma_stops_done(self@, self.selected_rows@, stops@);
        }
        stops
    }

    /// The stop that a jump to the next mark lands on, with the identifier of
    /// its record: the nearest stop after the highlight or, where none comes
    /// after it, the first stop of the view. `None` where the view has no
    /// stop.
    pub fn get_next_mark(&self) -> (next: Option<(u64, u64)>)
        requires
            self.wf(),
        ensures
            next is None <==> forall|p: int| !self@.is_mark_stop(p),
            next matches Some(stop) ==> self@.is_next_stop(stop.0 as int) && stop.1 == self@.id_at(
                stop.0 as int,
            ),
    {
        let stops = self.get_valid_scrollables();
        let highlight: u64 = self.highlighted_scroll_offset as u64;
        let mut after: Option<(u64, u64)> = None;
        let mut first: Option<(u64, u64)> = None;
        let mut k: usize = 0;
        while k < stops.len()
            invariant
                k <= stops@.len(),
                after matches Some(stop) ==> stop.0 > highlight && exists|w: int|
                    0 <= w < k && stops@[w] == stop,
                after matches Some(stop) ==> forall|w: int|
                    0 <= w < k && (#[trigger] stops@[w]).0 > highlight ==> stop.0 <= stops@[w].0,
                after is None ==> forall|w: int| 0 <= w < k ==> (#[trigger] stops@[w]).0 <= highlight,
                first matches Some(stop) ==> exists|w: int| 0 <= w < k && stops@[w] == stop,
                first matches Some(stop) ==> forall|w: int|
                    0 <= w < k ==> stop.0 <= (#[trigger] stops@[w]).0,
                first is None ==> k == 0,
            decreases stops@.len() - k,
        {
            let stop: (u64, u64) = stops[k];
            let nearer = match after {
                Some(best) => stop.0 < best.0,
                None => true,
            };
            if stop.0 > highlight && nearer {
                after = Some(stop);
            }
            let earlier = match first {
                Some(best) => stop.0 < best.0,
                None => true,
            };
            if earlier {
                first = Some(stop);
            }
            k = k + 1;
        }
        let next = match after {
            Some(stop) => Some(stop),
            None => first,
        };
        proof {
            match next {
                Some(stop) => {
                    let w = choose|w: int| 0 <= w < stops@.len() && stops@[w] == stop;
                    assert(self@.is_mark_stop(stops@[w].0 as int));
                    assert forall|q: int| self@.is_mark_stop(q) implies (after is Some && (q
                        > highlight ==> stop.0 <= q)) || (after is None && q <= highlight && stop.0
                        <= q) by {
                        let v = choose|v: int| 0 <= v < stops@.len() && stops@[v].0 == q;
                        assert(stops@[v].0 == q);
                    }
                },
                None => {
                    assert forall|p: int| !self@.is_mark_stop(p) by {
                        if self@.is_mark_stop(p) {
                            let v = choose|v: int| 0 <= v < stops@.len() && stops@[v].0 == p;
                        }
                    }
                },
            }
        }
        next
    }

    /// The stop that a jump to the previous mark lands on, with the
    /// identifier of its record: the nearest stop before the highlight or,
    /// where none comes before it, the last stop of the view. `None` where
    /// the view has no stop.
    pub fn get_next_mark_rev(&self) -> (next: Option<(u64, u64)>)
        requires
            self.wf(),
        ensures
            next is None <==> forall|p: int| !self@.is_mark_stop(p),
            next matches Some(stop) ==> self@.is_prev_stop(stop.0 as int) && stop.1 == self@.id_at(
                stop.0 as int,
            ),
    {
        let stops = self.get_valid_scrollables();
        let highlight: u64 = self.highlighted_scroll_offset as u64;
        let mut before: Option<(u64, u64)> = None;
        let mut last: Option<(u64, u64)> = None;
        let mut k: usize = 0;
        while k < stops.len()
            invariant
                k <= stops@.len(),
                before matches Some(stop) ==> stop.0 < highlight && exists|w: int|
                    0 <= w < k && stops@[w] == stop,
                before matches Some(stop) ==> forall|w: int|
                    0 <= w < k && (#[trigger] stops@[w]).0 < highlight ==> stop.0 >= stops@[w].0,
                before is None ==> forall|w: int|
                    0 <= w < k ==> (#[trigger] stops@[w]).0 >= highlight,
                last matches Some(stop) ==> exists|w: int| 0 <= w < k && stops@[w] == stop,
                last matches Some(stop) ==> forall|w: int|
                    0 <= w < k ==> stop.0 >= (#[trigger] stops@[w]).0,
                last is None ==> k == 0,
            decreases stops@.len() - k,
        {
            let stop: (u64, u64) = stops[k];
            let nearer = match before {
                Some(best) => stop.0 > best.0,
                None => true,
            };
            if stop.0 < highlight && nearer {
                before = Some(stop);
            }
            let later = match last {
                Some(best) => stop.0 > best.0,
                None => true,
            };
            if later {
                last = Some(stop);
            }
            k = k + 1;
        }
        let next = match before {
            Some(stop) => Some(stop),
            None => last,
        };
        proof {
            match next {
                Some(stop) => {
                    let w = choose|w: int| 0 <= w < stops@.len() && stops@[w] == stop;
                    assert(self@.is_mark_stop(stops@[w].0 as int));
                    assert forall|q: int| self@.is_mark_stop(q) implies (before is Some && (q
                        < highlight ==> stop.0 >= q)) || (before is None && q >= highlight
                        && stop.0 >= q) by {
                        let v = choose|v: int| 0 <= v < stops@.len() && stops@[v].0 == q;
                        assert(stops@[v].0 == q);
                    }
                },
                None => {
                    assert forall|p: int| !self@.is_mark_stop(p) by {
                        if self@.is_mark_stop(p) {
                            let v = choose|v: int| 0 <= v < stops@.len() && stops@[v].0 == p;
                        }
                    }
                },
            }
        }
        next
    }

    /// Jumps to the next mark, or to the previous one where `reverse` is
    /// set, and round the end of the view where no mark is left in that
    /// direction. Marks on records that the filters hide are passed over and
    /// kept. Nothing happens where the view holds no marked record.
    pub fn next_mark(&mut self, reverse: bool)
        requires
            old(self).wf(),
        ensures
            final(self).wf(),
            old(self)@.lands_on_mark(reverse, final(self)@),
    {
        if self.selected_rows.len() == 0 {
            proof {
                assert forall|p: int| !self@.is_mark_stop(p) by {
                    if self@.is_mark_stop(p) {
                        assert(self.selected_rows@.contains(self@.id_at(p)));
                    }
                }
            }
            return ;
        }
        let mark_pos = if reverse {
            self.get_next_mark_rev()
        } else {
            self.get_next_mark()
        };
        match mark_pos {
            Some((scroll_idx, _row_idx)) => {
                proof {
                    assert(self@.is_mark_target(reverse, scroll_idx as int));
                    assert forall|p: int| #[trigger]
                        self@.is_mark_target(reverse, p) implies p == scroll_idx as int by {
                        lemma_one_target(self@, reverse, p, scroll_idx as int);
                    }
                }
                self.scroll_to(scroll_idx);
            },
            None => {
                proof {
                    assert forall|p: int| !self@.is_mark_target(reverse, p) by {
                        if self@.is_mark_target(reverse, p) {
                            assert(self@.is_mark_stop(p));
                        }
                    }
                }
            },
        }
    }

    /// Jumps to the next record after the highlight whose message holds the
    /// text searched for. Nothing happens where no such record follows: the
    /// search does not start over at the top.
    pub fn find_next(&mut self)
        requires
            old(self).wf(),
        ensures
            final(self).wf(),
            old(self)@.finds_next(final(self)@),
    {
        let len: usize = self.events_filtered.len();
        if len == 0 {
            return ;
        }
        let mut p: usize = self.highlighted_scroll_offset + 1;
        while p < len
            invariant
                self.wf(),
                *self == *old(self),
                len == self@.len(),
                self@.highlight < p <= len,
                forall|q: int| self@.highlight < q < p ==> !self@.is_hit(q),
            decreases len - p,
        {
            if contains(self.record_at(p).log_message.as_str(), self.searching_text.as_str()) {
                proof {
                    assert(self@.is_next_hit(p as int));
                    assert forall|r: int| #[trigger] self@.is_next_hit(r) implies r == p by {
                        if r < p {
                            assert(!self@.is_hit(r));
                        }
                        if p < r {
                            assert(self@.is_hit(p as int));
                        }
                    }
                }
                self.scroll_to(p as u64);
                return ;
            }
            p = p + 1;
        }
    }

    /// Jumps to the last record before the highlight whose message holds the
    /// text searched for. Nothing happens where no such record comes before:
    /// the search does not start over at the end.
    pub fn find_prev(&mut self)
        requires
            old(self).wf(),
        ensures
            final(self).wf(),
            old(self)@.finds_prev(final(self)@),
    {
        if self.events_filtered.len() == 0 {
            return ;
        }
        let mut p: usize = self.highlighted_scroll_offset;
        while p > 0
            invariant
                self.wf(),
                *self == *old(self),
                0 <= p <= self@.highlight,
                forall|q: int| p <= q < self@.highlight ==> !self@.is_hit(q),
            decreases p,
        {
            p = p - 1;
            if contains(self.record_at(p).log_message.as_str(), self.searching_text.as_str()) {
                proof {
                    assert(self@.is_prev_hit(p as int));
                    assert forall|r: int| #[trigger] self@.is_prev_hit(r) implies r == p by {
                        if r > p {
                            assert(!self@.is_hit(r));
                        }
                        if p > r {
                            assert(self@.is_hit(p as int));
                        }
                    }
                }
                self.scroll_to(p as u64);
                return ;
            }
        }
        assert forall|r: int| !self@.is_prev_hit(r) by {
            if self@.is_prev_hit(r) {
                assert(self@.is_hit(r));
            }
        }
    }

    /// The marks are in rising order and the detail, where one is shown, is
    /// that of a stored record: what the making of the filtered view leaves
    /// alone and needs.
    pub closed spec fn settled(&self) -> bool {
        &&& strictly_increasing(self.selected_rows@)
        &&& self.view_detail matches Some(p) ==> p < self.events@.len()
    }

    /// The work of `refilter`: the filtered view is selected anew, and
    /// highlight and scroll position are brought into its bounds.
    fn recompute(&mut self)
        requires
            old(self).settled(),
        ensures
            final(self).wf(),
            old(self)@.refilters(final(self)@),
    {
        let predicates = active_predicates(&self.filters);
        self.events_filtered = select(&self.events, &predicates);
        self.highlighted_scroll_offset = self.limit_highlight(
            self.highlighted_scroll_offset as i128,
        );
        self.scroll_value = self.limit_scroll(self.scroll_value as i128);
    }

    /// Makes the filtered view anew from the filters as they are and brings
    /// highlight and scroll position into its bounds, whatever they were
    /// before. A viewer that was well formed stays as it is.
    pub(crate) fn refilter(&mut self)
        requires
            old(self).settled(),
        ensures
            final(self).wf(),
            old(self)@.refilters(final(self)@),
            old(self).wf() ==> final(self)@ == old(self)@,
    {
        self.recompute();
        proof {
            if old(self).wf() {
                crate::laws::lemma_refilter_settled(old(self)@, self@);
            }
        }
    }

    /// A well-formed viewer is settled.
    pub proof fn lemma_wf_settled(&self)
        requires
            self.wf(),
        ensures
            self.settled(),
    {
    }

    /// Gives the filter of `column` the text `text` and makes the filtered
    /// view anew. Highlight and scroll position are brought into the bounds
    /// of the new view; the marks stay as they are.
    pub fn set_filter(&mut self, column: FilterColumn, text: String)
        requires
            old(self).wf(),
        ensures
            final(self).wf(),
            old(self)@.filters_by(column, text@, final(self)@),
    {
        self.filters.set(column, text);
        self.refilter();
    }

    /// Opens the details of the highlighted record. Nothing happens while
    /// the view is empty.
    pub fn open_detail(&mut self)
        requires
            old(self).wf(),
        ensures
            final(self).wf(),
            final(self)@ == old(self)@.open_detail(),
    {
        if self.highlighted_scroll_offset < self.events_filtered.len() {
            self.view_detail = Some(self.events_filtered[self.highlighted_scroll_offset]);
        }
    }

    /// Closes the details.
    pub fn close_detail(&mut self)
        requires
            old(self).wf(),
        ensures
            final(self).wf(),
            final(self)@ == (LogReaderView { detail: None, ..old(self)@ }),
    {
        self.view_detail = None;
    }

    /// The record whose details are shown.
    pub fn detail_record(&self) -> (record: Option<&Record>)
        requires
            self.wf(),
        ensures
            record is Some <==> self@.detail is Some,
            record matches Some(r) ==> *r == self@.events[self@.detail->Some_0],
    {
        match self.view_detail {
            Some(p) => Some(&self.events[p]),
            None => None,
        }
    }

    /// Opens or closes the search bar.
    pub fn set_searching_bar(&mut self, open: bool)
        requires
            old(self).wf(),
        ensures
            final(self).wf(),
            final(self)@ == (LogReaderView { searching_bar: open, ..old(self)@ }),
    {
        self.searching_bar = open;
    }

    /// Sets the text searched for.
    pub fn set_searching_text(&mut self, text: String)
        requires
            old(self).wf(),
        ensures
            final(self).wf(),
            final(self)@ == (LogReaderView { searching_text: text@, ..old(self)@ }),
    {
        self.searching_text = text;
    }

    /// Shows or hides the help.
    pub fn set_show_help(&mut self, shown: bool)
        requires
            old(self).wf(),
        ensures
            final(self).wf(),
            final(self)@ == (LogReaderView { show_help: shown, ..old(self)@ }),
    {
        self.show_help = shown;
    }

    /// Notes whether the mouse is over the table.
    pub fn set_mouse_on_table(&mut self, over: bool)
        requires
            old(self).wf(),
        ensures
            final(self).wf(),
            final(self)@ == (LogReaderView { mouse_on_table: over, ..old(self)@ }),
    {
        self.mouse_on_table = over;
    }
}

/// `stops` holds, for each of the first `upto` marks whose record the view
/// holds, the first position of that record and its identifier, in the order
/// of the marks.
pub open spec fn stops_of_marks(
    view: LogReaderView,
    marks: Seq<u64>,
    upto: int,
    stops: Seq<(u64, u64)>,
) -> bool {
    &&& forall|k: int|
        0 <= k < stops.len() ==> view.is_position_of(
            (#[trigger] stops[k]).1,
            stops[k].0 as int,
        )
    &&& forall|i: int, j: int| 0 <= i < j < stops.len() ==> stops[i].1 < stops[j].1
    &&& forall|k: int|
        0 <= k < stops.len() ==> exists|j: int|
            0 <= j < upto && marks[j] == (#[trigger] stops[k]).1
    &&& forall|j: int|
        0 <= j < upto && view.shows(#[trigger] marks[j]) ==> exists|k: int|
            0 <= k < stops.len() && stops[k].1 == marks[j]
}

/// The list of stops grows by the stop of the next mark.
proof fn lemma_stops_grow(
    view: LogReaderView,
    marks: Seq<u64>,
    upto: int,
    stops: Seq<(u64, u64)>,
    stop: (u64, u64),
)
    requires
        strictly_increasing(marks),
        0 <= upto < marks.len(),
        stops_of_marks(view, marks, upto, stops),
        stop.1 == marks[upto],
        view.is_position_of(stop.1, stop.0 as int),
    ensures
        stops_of_marks(view, marks, upto + 1, stops.push(stop)),
{
    let grown = stops.push(stop);
    assert forall|i: int, j: int| 0 <= i < j < grown.len() implies grown[i].1 < grown[j].1 by {
        if j == stops.len() {
            let w = choose|w: int| 0 <= w < upto && marks[w] == stops[i].1;
            assert(marks[w] < marks[upto]);
        }
    }
    assert forall|k: int| 0 <= k < grown.len() implies exists|j: int|
        0 <= j < upto + 1 && marks[j] == (#[trigger] grown[k]).1 by {
        if k < stops.len() {
            let w = choose|w: int| 0 <= w < upto && marks[w] == stops[k].1;
            assert(marks[w] == grown[k].1);
        } else {
            assert(marks[upto] == grown[k].1);
        }
    }
    assert forall|j: int| 0 <= j < upto + 1 && view.shows(#[trigger] marks[j]) implies exists|
        k: int,
    | 0 <= k < grown.len() && grown[k].1 == marks[j] by {
        if j < upto {
            let w = choose|w: int| 0 <= w < stops.len() && stops[w].1 == marks[j];
            assert(grown[w].1 == marks[j]);
        } else {
            assert(grown[stops.len() as int].1 == marks[j]);
        }
    }
}

/// The list of stops stays as it is where the view does not hold the record
/// of the next mark.
proof fn lemma_stops_pass(view: LogReaderView, marks: Seq<u64>, upto: int, stops: Seq<(u64, u64)>)
    requires
        0 <= upto < marks.len(),
        stops_of_marks(view, marks, upto, stops),
        !view.shows(marks[upto]),
    ensures
        stops_of_marks(view, marks, upto + 1, stops),
{
    assert forall|k: int| 0 <= k < stops.len() implies exists|j: int|
        0 <= j < upto + 1 && marks[j] == (#[trigger] stops[k]).1 by {
        let w = choose|w: int| 0 <= w < upto && marks[w] == stops[k].1;
        assert(marks[w] == stops[k].1);
    }
}

/// Once every mark has had its turn, the list holds the stops of the view.
proof fn lemma_stops_done(view: LogReaderView, marks: Seq<u64>, stops: Seq<(u64, u64)>)
    requires
        stops_of_marks(view, marks, marks.len() as int, stops),
        view.marks == marks.to_set(),
    ensures
        view.lists_stops(stops),
{
    assert forall|k: int| 0 <= k < stops.len() implies view.is_mark_stop(
        (#[trigger] stops[k]).0 as int,
    ) && view.id_at(stops[k].0 as int) == stops[k].1 by {
        let j = choose|j: int| 0 <= j < marks.len() && marks[j] == stops[k].1;
        assert(marks.contains(stops[k].1));
    }
    assert forall|p: int| #[trigger] view.is_mark_stop(p) implies exists|k: int|
        0 <= k < stops.len() && stops[k].0 == p by {
        let id = view.id_at(p);
        assert(marks.contains(id));
        let j = choose|j: int| 0 <= j < marks.len() && marks[j] == id;
        assert(view.shows(marks[j]));
        let k = choose|k: int| 0 <= k < stops.len() && stops[k].1 == marks[j];
        let q = stops[k].0 as int;
        assert(view.is_position_of(stops[k].1, q));
        if q < p {
            assert(view.id_at(q) != id);
        }
        if p < q {
            assert(view.id_at(p) != id);
        }
    }
}

/// A jump from mark to mark has one place to land at most.
pub proof fn lemma_one_target(view: LogReaderView, reverse: bool, p: int, q: int)
    requires
        view.is_mark_target(reverse, p),
        view.is_mark_target(reverse, q),
    ensures
        p == q,
{
}

} // verus!
