use log_reader::log_message::{Event, Key, LogReaderMessage, Task};
use log_reader::record::{Record, Timestamp};
use log_reader::LogReader;

fn update_record(id: u64) -> Record {
    Record {
        id,
        date: Timestamp { secs: 100 * id as i64, nanos: 0 },
        computer_name: format!("host-{}", id % 2),
        process_id: 1000 + id as u32,
        process_user: String::from(if id < 5 { "root" } else { "guest" }),
        module_name: String::from(if id % 3 == 0 { "net" } else { "disk" }),
        message_id: id as u32,
        log_level: (id % 3) as u8,
        facility: (id % 4) as u32,
        log_message: String::from(if id == 7 { "fatal error" } else { "all well" }),
    }
}

fn update_reader() -> LogReader {
    let mut reader = LogReader::new(String::from("update"), (0..10).map(update_record).collect());
    reader.resize(3);
    reader
}

fn pressed(key: Key) -> LogReaderMessage {
    LogReaderMessage::Event(Event::KeyPressed { key, shift: false })
}

fn pressed_with_shift(key: Key) -> LogReaderMessage {
    LogReaderMessage::Event(Event::KeyPressed { key, shift: true })
}

fn released(key: Key) -> LogReaderMessage {
    LogReaderMessage::Event(Event::KeyReleased { key })
}

#[test]
fn arrows_move_the_highlight_by_one() {
    let mut reader = update_reader();
    assert_eq!(reader.update(pressed(Key::ArrowDown)), Task::Idle);
    assert_eq!(reader.update(pressed(Key::ArrowDown)), Task::Idle);
    assert_eq!(reader.highlighted_scroll_offset(), 2);
    assert_eq!(reader.update(pressed(Key::ArrowUp)), Task::Idle);
    assert_eq!(reader.highlighted_scroll_offset(), 1);
}

#[test]
fn j_and_k_move_the_highlight_by_one() {
    let mut reader = update_reader();
    reader.update(pressed(Key::Character('j')));
    reader.update(pressed(Key::Character('j')));
    assert_eq!(reader.highlighted_scroll_offset(), 2);
    reader.update(pressed(Key::Character('k')));
    assert_eq!(reader.highlighted_scroll_offset(), 1);
    reader.update(pressed(Key::Character('J')));
    assert_eq!(reader.highlighted_scroll_offset(), 1);
}

#[test]
fn page_keys_move_the_highlight_by_a_viewport() {
    let mut reader = update_reader();
    reader.update(pressed(Key::PageDown));
    assert_eq!(reader.highlighted_scroll_offset(), 3);
    assert_eq!(reader.scroll_value(), 0);
    reader.update(pressed(Key::PageDown));
    assert_eq!(reader.highlighted_scroll_offset(), 6);
    assert_eq!(reader.scroll_value(), 3);
    reader.update(pressed(Key::PageUp));
    assert_eq!(reader.highlighted_scroll_offset(), 3);
    assert_eq!(reader.scroll_value(), 3);
    reader.update(pressed(Key::PageUp));
    assert_eq!(reader.highlighted_scroll_offset(), 0);
    assert_eq!(reader.scroll_value(), 0);
}

#[test]
fn the_wheel_moves_highlight_and_viewport() {
    let mut reader = update_reader();
    let task = reader.update(LogReaderMessage::Event(Event::WheelScrolled { lines: -2 }));
    assert_eq!(task, Task::Idle);
    assert_eq!(reader.highlighted_scroll_offset(), 2);
    assert_eq!(reader.scroll_value(), 2);
    reader.update(LogReaderMessage::Event(Event::WheelScrolled { lines: 1 }));
    assert_eq!(reader.highlighted_scroll_offset(), 1);
    assert_eq!(reader.scroll_value(), 0);
}

#[test]
fn the_mouse_highlights_the_row_it_is_over() {
    let mut reader = update_reader();
    reader.scroll(-2);
    reader.update(LogReaderMessage::Event(Event::CursorMoved { row: 3 }));
    assert_eq!(reader.highlighted_scroll_offset(), 5);
    reader.update(LogReaderMessage::Event(Event::CursorMoved { row: 30 }));
    assert_eq!(reader.highlighted_scroll_offset(), 9);
}

#[test]
fn a_resize_sets_the_rows_of_the_viewport() {
    let mut reader = update_reader();
    reader.scroll(-100);
    reader.update(LogReaderMessage::Event(Event::Resized { rows_visible: 7 }));
    assert_eq!(reader.rows_visible(), 7);
    assert_eq!(reader.scroll_value(), 2);
}

#[test]
fn the_slider_moves_the_highlight() {
    let mut reader = update_reader();
    assert_eq!(reader.update(LogReaderMessage::ScrollChanged(9)), Task::Idle);
    assert_eq!(reader.highlighted_scroll_offset(), 2);
}

#[test]
fn slash_opens_the_search_bar_and_asks_for_the_focus() {
    let mut reader = update_reader();
    assert_eq!(reader.update(pressed(Key::Character('/'))), Task::FocusSearchBar);
    assert!(reader.searching_bar());
    assert_eq!(reader.update(pressed(Key::Character('/'))), Task::Idle);
    assert!(reader.searching_bar());
}

#[test]
fn escape_closes_the_search_bar() {
    let mut reader = update_reader();
    reader.update(pressed(Key::Character('/')));
    assert_eq!(reader.update(pressed(Key::Escape)), Task::Idle);
    assert!(!reader.searching_bar());
    reader.update(pressed(Key::Character('/')));
    reader.update(released(Key::Escape));
    assert!(!reader.searching_bar());
    reader.update(released(Key::Escape));
    assert!(!reader.searching_bar());
}

#[test]
fn enter_in_the_search_bar_searches() {
    let mut reader = update_reader();
    reader.update(pressed(Key::Character('/')));
    reader.update(LogReaderMessage::SearchInputChanged(String::from("error")));
    assert_eq!(reader.searching_text(), "error");
    assert_eq!(reader.update(pressed(Key::Enter)), Task::Idle);
    assert!(!reader.searching_bar());
    assert_eq!(reader.highlighted_scroll_offset(), 7);
    assert_eq!(reader.scroll_value(), 5);
    assert_eq!(reader.view_detail(), None);
}

#[test]
fn f3_searches_on_and_with_shift_back() {
    let mut reader = update_reader();
    reader.update(LogReaderMessage::SearchInputChanged(String::from("well")));
    reader.update(pressed(Key::F3));
    assert_eq!(reader.highlighted_scroll_offset(), 1);
    reader.update(pressed(Key::F3));
    assert_eq!(reader.highlighted_scroll_offset(), 2);
    reader.update(pressed_with_shift(Key::F3));
    assert_eq!(reader.highlighted_scroll_offset(), 1);
}

#[test]
fn m_marks_and_n_jumps() {
    let mut reader = update_reader();
    reader.update(pressed(Key::ArrowDown));
    reader.update(pressed(Key::ArrowDown));
    reader.update(pressed(Key::Character('m')));
    assert_eq!(reader.selected_rows(), &vec![2]);
    reader.scroll_to(8);
    reader.update(pressed(Key::Character('m')));
    assert_eq!(reader.selected_rows(), &vec![2, 8]);
    reader.scroll_to(5);
    assert_eq!(reader.update(pressed(Key::Character('n'))), Task::Idle);
    assert_eq!(reader.highlighted_scroll_offset(), 8);
    reader.update(pressed_with_shift(Key::Character('N')));
    assert_eq!(reader.highlighted_scroll_offset(), 2);
    reader.update(pressed_with_shift(Key::Character('n')));
    assert_eq!(reader.highlighted_scroll_offset(), 8);
    reader.update(pressed(Key::Character('N')));
    assert_eq!(reader.highlighted_scroll_offset(), 2);
}

#[test]
fn n_without_marks_does_nothing() {
    let mut reader = update_reader();
    reader.update(pressed(Key::ArrowDown));
    assert_eq!(reader.update(pressed(Key::Character('n'))), Task::Idle);
    assert_eq!(reader.highlighted_scroll_offset(), 1);
}

#[test]
fn other_keys_and_events_change_nothing() {
    let mut reader = update_reader();
    reader.update(pressed(Key::ArrowDown));
    for msg in [
        pressed(Key::Other),
        pressed(Key::F1),
        pressed(Key::Character('x')),
        released(Key::Enter),
        LogReaderMessage::Event(Event::Other),
        LogReaderMessage::WindowClosed,
        LogReaderMessage::TextEditorEdit { edit: false },
        LogReaderMessage::TextEditorEdit { edit: true },
    ] {
        assert_eq!(reader.update(msg), Task::Idle);
        assert_eq!(reader.highlighted_scroll_offset(), 1);
        assert_eq!(reader.scroll_value(), 0);
        assert!(!reader.searching_bar());
        assert!(reader.selected_rows().is_empty());
        assert_eq!(reader.view_detail(), None);
        assert_eq!(reader.events_filtered().len(), 10);
    }
}

#[test]
fn the_table_notes_the_mouse() {
    let mut reader = update_reader();
    reader.update(LogReaderMessage::TableEntered);
    assert!(reader.mouse_on_table());
    reader.update(LogReaderMessage::TableLeft);
    assert!(!reader.mouse_on_table());
}

#[test]
fn filter_inputs_set_the_filter_of_their_column() {
    let mut reader = update_reader();
    assert_eq!(reader.update(LogReaderMessage::IDInput(String::from("3"))), Task::Idle);
    assert_eq!(reader.filters().log_name.value, "3");
    assert_eq!(reader.events_filtered().len(), 10);
    reader.update(LogReaderMessage::ComputerNameInput(String::from("host-1")));
    assert_eq!(reader.events_filtered(), &vec![1, 3, 5, 7, 9]);
    reader.update(LogReaderMessage::ProcessUserInput(String::from("guest")));
    assert_eq!(reader.events_filtered(), &vec![5, 7, 9]);
    reader.update(LogReaderMessage::ModuleNameInput(String::from("net")));
    assert_eq!(reader.events_filtered(), &vec![9]);
    reader.update(LogReaderMessage::ModuleNameInput(String::new()));
    reader.update(LogReaderMessage::LogMessageInput(String::from("fatal")));
    assert_eq!(reader.events_filtered(), &vec![7]);
    reader.update(LogReaderMessage::ProcessIDInput(String::from("1007")));
    assert_eq!(reader.events_filtered(), &vec![7]);
    reader.update(LogReaderMessage::MessageIDInput(String::from("8")));
    assert!(reader.events_filtered().is_empty());
}

#[test]
fn number_and_date_inputs_filter_too() {
    let mut reader = update_reader();
    reader.update(LogReaderMessage::LogLevelInput(String::from("2")));
    assert_eq!(reader.events_filtered(), &vec![2, 5, 8]);
    reader.update(LogReaderMessage::FacilityInput(String::from("1")));
    assert_eq!(reader.events_filtered(), &vec![5]);
    reader.update(LogReaderMessage::FacilityInput(String::new()));
    reader.update(LogReaderMessage::LogLevelInput(String::new()));
    // Second 800 is 1970-01-01T00:13:20Z.
    reader.update(LogReaderMessage::DateInput(String::from("1970-01-01 00:13:20Z")));
    assert_eq!(reader.events_filtered(), &vec![8, 9]);
    reader.update(LogReaderMessage::DateInput(String::from("1970-01-01 00:13:20")));
    assert_eq!(reader.events_filtered().len(), 10);
}

#[test]
fn enter_opens_the_details_and_escape_closes_them() {
    let mut reader = update_reader();
    reader.update(pressed(Key::ArrowDown));
    assert_eq!(reader.update(pressed(Key::Enter)), Task::Idle);
    assert_eq!(reader.view_detail(), Some(1));
    // While the details are shown the table does not get the keys.
    reader.update(pressed(Key::ArrowDown));
    assert_eq!(reader.highlighted_scroll_offset(), 1);
    reader.update(LogReaderMessage::LogMessageInput(String::from("fatal")));
    assert_eq!(reader.events_filtered().len(), 10);
    assert_eq!(reader.update(pressed(Key::Escape)), Task::Idle);
    assert_eq!(reader.view_detail(), None);
    reader.update(pressed(Key::ArrowDown));
    assert_eq!(reader.highlighted_scroll_offset(), 2);
}

#[test]
fn the_details_are_those_of_the_record_not_of_the_row() {
    let mut reader = update_reader();
    reader.update(LogReaderMessage::ProcessUserInput(String::from("guest")));
    reader.update(pressed(Key::ArrowDown));
    reader.update(pressed(Key::Enter));
    assert_eq!(reader.view_detail(), Some(6));
    assert_eq!(reader.detail_record().map(|r| r.id), Some(6));
}

#[test]
fn the_editor_of_the_details_takes_no_edits() {
    let mut reader = update_reader();
    reader.update(pressed(Key::Enter));
    assert_eq!(reader.update(LogReaderMessage::TextEditorEdit { edit: true }), Task::Idle);
    assert_eq!(
        reader.update(LogReaderMessage::TextEditorEdit { edit: false }),
        Task::PerformEditorAction
    );
    assert_eq!(reader.view_detail(), Some(0));
}

#[test]
fn f1_shows_the_help_and_escape_hides_it() {
    let mut reader = update_reader();
    assert_eq!(reader.update(released(Key::F1)), Task::Idle);
    assert!(reader.show_help());
    reader.update(pressed(Key::Character('/')));
    assert!(reader.searching_bar());
    // Letting go of Escape hides the help first and leaves the search bar.
    assert_eq!(reader.update(released(Key::Escape)), Task::Idle);
    assert!(!reader.show_help());
    assert!(reader.searching_bar());
    reader.update(released(Key::Escape));
    assert!(!reader.searching_bar());
}

#[test]
fn f1_shows_the_help_over_the_details_too() {
    let mut reader = update_reader();
    reader.update(pressed(Key::Enter));
    reader.update(released(Key::F1));
    assert!(reader.show_help());
    assert_eq!(reader.view_detail(), Some(0));
}

#[test]
fn table_update_handles_messages_on_its_own() {
    let mut reader = update_reader();
    let task = log_reader::table_view::update(&mut reader, pressed(Key::ArrowDown));
    assert_eq!(task, Task::Idle);
    assert_eq!(reader.highlighted_scroll_offset(), 1);
    // The table does not show the help.
    log_reader::table_view::update(&mut reader, released(Key::F1));
    assert!(!reader.show_help());
}

#[test]
fn detail_update_handles_messages_on_its_own() {
    let mut reader = update_reader();
    reader.open_detail();
    let task = log_reader::detail_view::update(&mut reader, pressed(Key::ArrowDown));
    assert_eq!(task, Task::Idle);
    assert_eq!(reader.highlighted_scroll_offset(), 0);
    log_reader::detail_view::update(&mut reader, released(Key::Escape));
    assert_eq!(reader.view_detail(), Some(0));
    log_reader::detail_view::update(&mut reader, pressed_with_shift(Key::Escape));
    assert_eq!(reader.view_detail(), None);
}

#[test]
fn loading_update_changes_nothing() {
    let mut reader = update_reader();
    reader.scroll_highlight(-2);
    log_reader::loading_view::update(&mut reader, pressed(Key::ArrowDown));
    log_reader::loading_view::update(&mut reader, LogReaderMessage::LogMessageInput(String::from("x")));
    assert_eq!(reader.highlighted_scroll_offset(), 2);
    assert_eq!(reader.events_filtered().len(), 10);
    assert_eq!(reader.filters().log_message.value, "");
}
