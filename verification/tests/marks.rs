use log_reader::filters::FilterColumn;
use log_reader::marks::{add_mark, is_marked, remove_mark, slot};
use log_reader::record::{Record, Timestamp};
use log_reader::LogReader;

fn mark_record(id: u64, message: &str) -> Record {
    Record {
        id,
        date: Timestamp { secs: id as i64, nanos: 0 },
        computer_name: String::from("pc"),
        process_id: 1,
        process_user: String::from("user"),
        module_name: String::from("module"),
        message_id: 1,
        log_level: 1,
        facility: 1,
        log_message: String::from(message),
    }
}

fn mark_reader(count: u64) -> LogReader {
    let records = (0..count)
        .map(|id| mark_record(id, if id % 2 == 0 { "even" } else { "odd" }))
        .collect();
    let mut reader = LogReader::new(String::from("marks"), records);
    reader.resize(3);
    reader
}

#[test]
fn slot_counts_the_smaller_marks() {
    let marks = vec![10, 20, 30];
    assert_eq!(slot(&marks, 5), 0);
    assert_eq!(slot(&marks, 10), 0);
    assert_eq!(slot(&marks, 11), 1);
    assert_eq!(slot(&marks, 30), 2);
    assert_eq!(slot(&marks, 31), 3);
    assert_eq!(slot(&Vec::new(), 31), 0);
}

#[test]
fn is_marked_finds_what_is_there() {
    let marks = vec![10, 20, 30];
    assert!(is_marked(&marks, 10));
    assert!(is_marked(&marks, 30));
    assert!(!is_marked(&marks, 15));
    assert!(!is_marked(&marks, 0));
    assert!(!is_marked(&Vec::new(), 0));
}

#[test]
fn add_mark_keeps_the_order() {
    let mut marks: Vec<u64> = Vec::new();
    for id in [20, 10, 30, 25, 0, u64::MAX] {
        add_mark(&mut marks, id);
    }
    assert_eq!(marks, vec![0, 10, 20, 25, 30, u64::MAX]);
}

#[test]
fn add_mark_adds_nothing_twice() {
    let mut marks = vec![10, 20];
    add_mark(&mut marks, 10);
    add_mark(&mut marks, 20);
    assert_eq!(marks, vec![10, 20]);
}

#[test]
fn remove_mark_takes_out_the_one() {
    let mut marks = vec![10, 20, 30];
    remove_mark(&mut marks, 20);
    assert_eq!(marks, vec![10, 30]);
    remove_mark(&mut marks, 20);
    assert_eq!(marks, vec![10, 30]);
    remove_mark(&mut marks, 10);
    remove_mark(&mut marks, 30);
    assert!(marks.is_empty());
    remove_mark(&mut marks, 30);
    assert!(marks.is_empty());
}

#[test]
fn switch_mark_marks_and_unmarks() {
    let mut reader = mark_reader(10);
    reader.switch_mark(4);
    assert_eq!(reader.selected_rows(), &vec![4]);
    reader.switch_mark(2);
    assert_eq!(reader.selected_rows(), &vec![2, 4]);
    reader.switch_mark(4);
    assert_eq!(reader.selected_rows(), &vec![2]);
}

#[test]
fn switching_a_mark_twice_restores_the_marks() {
    let mut reader = mark_reader(10);
    reader.switch_mark(7);
    reader.switch_mark(1);
    let before = reader.selected_rows().clone();
    for id in [0, 1, 5, 7, 9, 1_000] {
        reader.switch_mark(id);
        reader.switch_mark(id);
        assert_eq!(reader.selected_rows(), &before);
    }
}

#[test]
fn add_and_remove_mark_on_the_reader() {
    let mut reader = mark_reader(10);
    reader.add_mark(5);
    reader.add_mark(3);
    reader.add_mark(5);
    assert_eq!(reader.selected_rows(), &vec![3, 5]);
    reader.remove_mark(3);
    reader.remove_mark(8);
    assert_eq!(reader.selected_rows(), &vec![5]);
}

#[test]
fn a_record_outside_the_log_can_be_marked() {
    let mut reader = mark_reader(3);
    reader.switch_mark(99);
    assert_eq!(reader.selected_rows(), &vec![99]);
    assert!(reader.get_valid_scrollables().is_empty());
    reader.next_mark(false);
    assert_eq!(reader.highlighted_scroll_offset(), 0);
}

#[test]
fn switch_mark_highlighted_offset_marks_the_record_by_its_identifier() {
    let records = vec![mark_record(50, "a"), mark_record(20, "b"), mark_record(90, "c")];
    let mut reader = LogReader::new(String::from("marks"), records);
    reader.scroll_highlight(-1);
    reader.switch_mark_highlighted_offset();
    assert_eq!(reader.selected_rows(), &vec![20]);
    reader.switch_mark_highlighted_offset();
    assert!(reader.selected_rows().is_empty());
}

#[test]
fn get_row_idx_scroll_idx_finds_the_position_in_the_view() {
    let mut reader = mark_reader(10);
    assert_eq!(reader.get_row_idx_scroll_idx(6), Some(6));
    assert_eq!(reader.get_row_idx_scroll_idx(10), None);
    reader.set_filter(FilterColumn::LogMessage, String::from("even"));
    assert_eq!(reader.get_row_idx_scroll_idx(6), Some(3));
    assert_eq!(reader.get_row_idx_scroll_idx(5), None);
}

#[test]
fn get_valid_scrollables_lists_the_marks_that_are_shown() {
    let mut reader = mark_reader(10);
    reader.switch_mark(8);
    reader.switch_mark(3);
    reader.switch_mark(4);
    assert_eq!(reader.get_valid_scrollables(), vec![(3, 3), (4, 4), (8, 8)]);
    reader.set_filter(FilterColumn::LogMessage, String::from("even"));
    assert_eq!(reader.get_valid_scrollables(), vec![(2, 4), (4, 8)]);
}

#[test]
fn next_mark_between_two_marks() {
    let mut reader = mark_reader(10);
    reader.switch_mark(2);
    reader.switch_mark(8);
    reader.scroll_to(5);
    reader.next_mark(false);
    assert_eq!(reader.highlighted_scroll_offset(), 8);
    reader.next_mark(true);
    assert_eq!(reader.highlighted_scroll_offset(), 2);
}

#[test]
fn next_mark_goes_round_the_end() {
    let mut reader = mark_reader(10);
    reader.switch_mark(2);
    reader.switch_mark(8);
    reader.scroll_to(8);
    reader.next_mark(false);
    assert_eq!(reader.highlighted_scroll_offset(), 2);
    reader.next_mark(true);
    assert_eq!(reader.highlighted_scroll_offset(), 8);
    reader.scroll_to(9);
    reader.next_mark(false);
    assert_eq!(reader.highlighted_scroll_offset(), 2);
    reader.scroll_to(0);
    reader.next_mark(true);
    assert_eq!(reader.highlighted_scroll_offset(), 8);
}

#[test]
fn next_mark_with_one_mark_under_the_highlight_stays() {
    let mut reader = mark_reader(10);
    reader.switch_mark(4);
    reader.scroll_to(4);
    let scroll = reader.scroll_value();
    reader.next_mark(false);
    assert_eq!(reader.highlighted_scroll_offset(), 4);
    assert_eq!(reader.scroll_value(), scroll);
    reader.next_mark(true);
    assert_eq!(reader.highlighted_scroll_offset(), 4);
}

#[test]
fn next_mark_without_marks_changes_nothing() {
    let mut reader = mark_reader(10);
    reader.scroll_highlight(-4);
    let scroll = reader.scroll_value();
    reader.next_mark(false);
    reader.next_mark(true);
    assert_eq!(reader.highlighted_scroll_offset(), 4);
    assert_eq!(reader.scroll_value(), scroll);
}

#[test]
fn next_mark_centres_the_row() {
    let mut reader = mark_reader(100);
    reader.resize(10);
    reader.switch_mark(60);
    reader.next_mark(false);
    assert_eq!(reader.highlighted_scroll_offset(), 60);
    assert_eq!(reader.scroll_value(), 55);
}

#[test]
fn get_next_mark_gives_position_and_identifier() {
    let mut reader = mark_reader(10);
    assert_eq!(reader.get_next_mark(), None);
    assert_eq!(reader.get_next_mark_rev(), None);
    reader.switch_mark(2);
    reader.switch_mark(8);
    reader.set_filter(FilterColumn::LogMessage, String::from("even"));
    reader.scroll_to(2);
    assert_eq!(reader.get_next_mark(), Some((4, 8)));
    assert_eq!(reader.get_next_mark_rev(), Some((1, 2)));
}

#[test]
fn next_mark_goes_by_position_where_identifiers_are_out_of_order() {
    let records = vec![
        mark_record(50, "a"),
        mark_record(20, "b"),
        mark_record(90, "c"),
        mark_record(10, "d"),
        mark_record(70, "e"),
    ];
    let mut reader = LogReader::new(String::from("marks"), records);
    reader.resize(3);
    reader.switch_mark(10);
    reader.switch_mark(90);
    reader.switch_mark(50);
    // The stops are the positions 0, 2 and 3.
    reader.scroll_to(1);
    assert_eq!(reader.get_next_mark(), Some((2, 90)));
    assert_eq!(reader.get_next_mark_rev(), Some((0, 50)));
    reader.scroll_to(3);
    assert_eq!(reader.get_next_mark(), Some((0, 50)));
    assert_eq!(reader.get_next_mark_rev(), Some((2, 90)));
    reader.scroll_to(0);
    assert_eq!(reader.get_next_mark_rev(), Some((3, 10)));
}

#[test]
fn a_mark_outlives_a_filter_that_hides_its_record() {
    let mut reader = mark_reader(10);
    reader.switch_mark(3);
    reader.switch_mark(4);
    reader.set_filter(FilterColumn::LogMessage, String::from("even"));
    assert_eq!(reader.selected_rows(), &vec![3, 4]);
    assert_eq!(reader.get_row_idx_scroll_idx(3), None);
    reader.next_mark(false);
    assert_eq!(reader.highlighted_scroll_offset(), 2);
    assert_eq!(reader.scroll_value_to_row_id(2), 4);
    reader.next_mark(false);
    assert_eq!(reader.highlighted_scroll_offset(), 2);
    reader.next_mark(true);
    assert_eq!(reader.highlighted_scroll_offset(), 2);
    reader.set_filter(FilterColumn::LogMessage, String::new());
    assert_eq!(reader.selected_rows(), &vec![3, 4]);
    assert_eq!(reader.get_valid_scrollables(), vec![(3, 3), (4, 4)]);
}

#[test]
fn only_hidden_marks_leave_nothing_to_jump_to() {
    let mut reader = mark_reader(10);
    reader.switch_mark(3);
    reader.set_filter(FilterColumn::LogMessage, String::from("even"));
    reader.scroll_highlight(-1);
    reader.next_mark(false);
    reader.next_mark(true);
    assert_eq!(reader.highlighted_scroll_offset(), 1);
    assert_eq!(reader.get_next_mark(), None);
    assert_eq!(reader.selected_rows(), &vec![3]);
}
