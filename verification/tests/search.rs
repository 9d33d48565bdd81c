use log_reader::filters::FilterColumn;
use log_reader::record::{Record, Timestamp};
use log_reader::LogReader;

fn search_record(id: u64, message: &str) -> Record {
    Record {
        id,
        date: Timestamp { secs: id as i64, nanos: 0 },
        computer_name: String::from("pc"),
        process_id: (id % 2) as u32,
        process_user: String::from("user"),
        module_name: String::from("module"),
        message_id: 1,
        log_level: 1,
        facility: 1,
        log_message: String::from(message),
    }
}

fn search_reader(messages: &[&str]) -> LogReader {
    let records = messages
        .iter()
        .enumerate()
        .map(|(id, message)| search_record(id as u64, message))
        .collect();
    let mut reader = LogReader::new(String::from("search"), records);
    reader.resize(3);
    reader
}

#[test]
fn find_next_jumps_to_the_only_match() {
    let mut reader = search_reader(&[
        "start", "ok", "ok", "ok", "ok", "ok", "ok", "disk error", "ok", "ok",
    ]);
    reader.set_searching_text(String::from("error"));
    reader.find_next();
    assert_eq!(reader.highlighted_scroll_offset(), 7);
    assert_eq!(reader.scroll_value(), 5);
    reader.find_next();
    assert_eq!(reader.highlighted_scroll_offset(), 7);
    assert_eq!(reader.scroll_value(), 5);
}

#[test]
fn find_next_starts_after_the_highlight() {
    let mut reader = search_reader(&["error", "ok", "error", "ok", "error"]);
    reader.set_searching_text(String::from("error"));
    reader.find_next();
    assert_eq!(reader.highlighted_scroll_offset(), 2);
    reader.find_next();
    assert_eq!(reader.highlighted_scroll_offset(), 4);
    reader.find_next();
    assert_eq!(reader.highlighted_scroll_offset(), 4);
}

#[test]
fn find_prev_takes_the_nearest_match_before() {
    let mut reader = search_reader(&["error", "ok", "error", "ok", "error", "ok"]);
    reader.set_searching_text(String::from("error"));
    reader.scroll_to(5);
    reader.find_prev();
    assert_eq!(reader.highlighted_scroll_offset(), 4);
    reader.find_prev();
    assert_eq!(reader.highlighted_scroll_offset(), 2);
    reader.find_prev();
    assert_eq!(reader.highlighted_scroll_offset(), 0);
    reader.find_prev();
    assert_eq!(reader.highlighted_scroll_offset(), 0);
}

#[test]
fn find_does_not_start_over() {
    let mut reader = search_reader(&["ok", "error", "ok", "ok"]);
    reader.set_searching_text(String::from("error"));
    reader.scroll_to(2);
    let scroll = reader.scroll_value();
    reader.find_next();
    assert_eq!(reader.highlighted_scroll_offset(), 2);
    assert_eq!(reader.scroll_value(), scroll);
    reader.scroll_to(0);
    reader.find_prev();
    assert_eq!(reader.highlighted_scroll_offset(), 0);
}

#[test]
fn find_is_case_sensitive() {
    let mut reader = search_reader(&["ok", "Error", "ok", "error"]);
    reader.set_searching_text(String::from("error"));
    reader.find_next();
    assert_eq!(reader.highlighted_scroll_offset(), 3);
}

#[test]
fn find_without_a_match_changes_nothing() {
    let mut reader = search_reader(&["ok", "ok", "ok"]);
    reader.set_searching_text(String::from("error"));
    reader.scroll_highlight(-1);
    reader.find_next();
    reader.find_prev();
    assert_eq!(reader.highlighted_scroll_offset(), 1);
    assert_eq!(reader.scroll_value(), 0);
}

#[test]
fn find_with_an_empty_text_takes_the_next_row() {
    let mut reader = search_reader(&["a", "b", "c"]);
    reader.find_next();
    assert_eq!(reader.highlighted_scroll_offset(), 1);
    reader.find_next();
    assert_eq!(reader.highlighted_scroll_offset(), 2);
    reader.find_next();
    assert_eq!(reader.highlighted_scroll_offset(), 2);
    reader.find_prev();
    assert_eq!(reader.highlighted_scroll_offset(), 1);
}

#[test]
fn find_goes_by_the_positions_of_the_filtered_view() {
    let mut reader = search_reader(&["error", "error", "ok", "error", "error", "error"]);
    // The filter keeps the records 1, 3 and 5.
    reader.set_filter(FilterColumn::ProcessId, String::from("1"));
    reader.set_searching_text(String::from("error"));
    reader.find_next();
    assert_eq!(reader.highlighted_scroll_offset(), 1);
    assert_eq!(reader.scroll_value_to_row_id(1), 3);
    reader.find_next();
    assert_eq!(reader.highlighted_scroll_offset(), 2);
    reader.find_prev();
    assert_eq!(reader.highlighted_scroll_offset(), 1);
}

#[test]
fn find_looks_at_the_message_only() {
    let mut reader = search_reader(&["ok", "ok", "module"]);
    reader.set_searching_text(String::from("user"));
    reader.find_next();
    assert_eq!(reader.highlighted_scroll_offset(), 0);
    reader.set_searching_text(String::from("module"));
    reader.find_next();
    assert_eq!(reader.highlighted_scroll_offset(), 2);
}
