//! The table of records: what each message does to the viewer while the
//! table is shown.

use vstd::prelude::*;
use crate::filters::FilterColumn;
use crate::log_message::{Event, Key, LogReaderMessage, Task};
use crate::model::LogReaderView;
use crate::reader::LogReader;

verus! {

/// Makes the filtered view anew from the filters as they are: it holds the
/// records that satisfy every predicate in use, in the order in which they
/// are stored. Highlight and scroll position are brought into its bounds.
/// Whatever the view, the highlight and the scroll position were before, the
/// viewer is well formed afterwards; one that was well formed stays as it
/// is.
pub fn apply_filter(table: &mut LogReader)
    requires
        old(table).settled(),
    ensures
        final(table).wf(),
        old(table)@.refilters(final(table)@),
        old(table).wf() ==> final(table)@ == old(table)@,
{
    table.refilter();
}

/// What a pressed key makes of the state `pre`.
pub open spec fn key_pressed(
    pre: LogReaderView,
    key: Key,
    shift: bool,
    post: LogReaderView,
    task: Task,
) -> bool {
    if key == Key::Character('/') && !pre.searching_bar {
        post == (LogReaderView { searching_bar: true, ..pre }) && task == Task::FocusSearchBar
    } else {
        &&& task == Task::Idle
        &&& if key == Key::ArrowDown || key == Key::Character('j') {
            post == pre.scroll_highlight(-1)
        } else if key == Key::ArrowUp || key == Key::Character('k') {
            post == pre.scroll_highlight(1)
        } else if key == Key::PageDown {
            post == pre.scroll_highlight(-pre.rows_visible)
        } else if key == Key::PageUp {
            post == pre.scroll_highlight(pre.rows_visible)
        } else if key == Key::Enter {
            if pre.searching_bar {
                (LogReaderView { searching_bar: false, ..pre }).finds_next(post)
            } else {
                post == pre.open_detail()
            }
        } else if key == Key::F3 {
            if shift {
                pre.finds_prev(post)
            } else {
                pre.finds_next(post)
            }
        } else if key == Key::Escape {
            post == (LogReaderView { searching_bar: false, ..pre })
        } else if key == Key::Character('n') || key == Key::Character('N') {
            pre.lands_on_mark(shift, post)
        } else if key == Key::Character('m') {
            post == pre.switch_mark_highlighted()
        } else {
            post == pre
        }
    }
}

/// What an event makes of the state `pre`.
pub open spec fn event_handled(
    pre: LogReaderView,
    event: Event,
    post: LogReaderView,
    task: Task,
) -> bool {
    match event {
        Event::KeyPressed { key, shift } => key_pressed(pre, key, shift, post, task),
        Event::KeyReleased { key } => {
            &&& task == Task::Idle
            &&& post == if key == Key::Escape {
                LogReaderView { searching_bar: false, ..pre }
            } else {
                pre
            }
        },
        Event::WheelScrolled { lines } => {
            &&& task == Task::Idle
            &&& post == pre.scroll_highlight(lines as int).scroll(lines as int)
        },
        Event::CursorMoved { row } => task == Task::Idle && post == pre.hover(row as int),
        Event::Resized { rows_visible } => {
            &&& task == Task::Idle
            &&& post == pre.resized(rows_visible as int)
        },
        Event::Other => task == Task::Idle && post == pre,
    }
}

/// The change of the highlight that brings the slider's value about: the
/// slider counts from the end of the view.
pub open spec fn slider_change(pre: LogReaderView, value: int) -> int {
    pre.scroll - (pre.len() - (value - 1))
}

/// What a message makes of the state `pre` while the table is shown, and
/// what is left for the presentation layer to do.
pub open spec fn updated(
    pre: LogReaderView,
    msg: LogReaderMessage,
    post: LogReaderView,
    task: Task,
) -> bool {
    match msg {
        LogReaderMessage::Event(event) => event_handled(pre, event, post, task),
        _ => {
            &&& task == Task::Idle
            &&& match msg {
                LogReaderMessage::ScrollChanged(value) => post == pre.scroll_highlight(
                    slider_change(pre, value as int),
                ),
                LogReaderMessage::TableEntered => post == (LogReaderView {
                    mouse_on_table: true,
                    ..pre
                }),
                LogReaderMessage::TableLeft => post == (LogReaderView {
                    mouse_on_table: false,
                    ..pre
                }),
                LogReaderMessage::SearchInputChanged(text) => post == (LogReaderView {
                    searching_text: text@,
                    ..pre
                }),
                LogReaderMessage::IDInput(text) => pre.filters_by(
                    FilterColumn::LogName,
                    text@,
                    post,
                ),
                LogReaderMessage::DateInput(text) => pre.filters_by(
                    FilterColumn::Date,
                    text@,
                    post,
                ),
                LogReaderMessage::ComputerNameInput(text) => pre.filters_by(
                    FilterColumn::ComputerName,
                    text@,
                    post,
                ),
                LogReaderMessage::ProcessIDInput(text) => pre.filters_by(
                    FilterColumn::ProcessId,
                    text@,
                    post,
                ),
                LogReaderMessage::ProcessUserInput(text) => pre.filters_by(
                    FilterColumn::ProcessUser,
                    text@,
                    post,
                ),
                LogReaderMessage::ModuleNameInput(text) => pre.filters_by(
                    FilterColumn::ModuleName,
                    text@,
                    post,
                ),
                LogReaderMessage::MessageIDInput(text) => pre.filters_by(
                    FilterColumn::MessageId,
                    text@,
                    post,
                ),
                LogReaderMessage::LogLevelInput(text) => pre.filters_by(
                    FilterColumn::LogLevel,
                    text@,
                    post,
                ),
                LogReaderMessage::FacilityInput(text) => pre.filters_by(
                    FilterColumn::Facility,
                    text@,
                    post,
                ),
                LogReaderMessage::LogMessageInput(text) => pre.filters_by(
                    FilterColumn::LogMessage,
                    text@,
                    post,
                ),
                _ => post == pre,
            }
        },
    }
}

/// Handles a pressed key.
fn press(table: &mut LogReader, key: Key, shift: bool) -> (task: Task)
    requires
        old(table).wf(),
    ensures
        final(table).wf(),
        key_pressed(old(table)@, key, shift, final(table)@, task),
{
    match key {
        Key::ArrowDown => table.scroll_highlight(-1),
        Key::ArrowUp => table.scroll_highlight(1),
        Key::PageDown => {
            let page: i64 = table.rows_visible() as i64;
            table.scroll_highlight(-page)
        },
        Key::PageUp => {
            let page: i64 = table.rows_visible() as i64;
            table.scroll_highlight(page)
        },
        Key::Enter => {
            if table.searching_bar() {
                table.set_searching_bar(false);
                table.find_next();
            } else {
                table.open_detail();
            }
        },
        Key::F3 => {
            if shift {
                table.find_prev();
            } else {
                table.find_next();
            }
        },
        Key::Escape => {
            if table.searching_bar() {
                table.set_searching_bar(false);
            }
        },
        Key::Character(c) => {
            if c == '/' {
                if !table.searching_bar() {
                    table.set_searching_bar(true);
                    return Task::FocusSearchBar;
                }
            } else if c == 'j' {
                table.scroll_highlight(-1);
            } else if c == 'k' {
                table.scroll_highlight(1);
            } else if c == 'n' || c == 'N' {
                table.next_mark(shift);
            } else if c == 'm' {
                table.switch_mark_highlighted_offset();
            }
        },
        _ => {},
    }
    Task::Idle
}

/// Handles an event of the keyboard, the mouse or the window.
fn handle(table: &mut LogReader, event: Event) -> (task: Task)
    requires
        old(table).wf(),
    ensures
        final(table).wf(),
        event_handled(old(table)@, event, final(table)@, task),
{
    match event {
        Event::KeyPressed { key, shift } => {
            return press(table, key, shift);
        },
        Event::KeyReleased { key } => {
            if key == Key::Escape && table.searching_bar() {
                table.set_searching_bar(false);
            }
        },
        Event::WheelScrolled { lines } => {
            table.scroll_highlight(lines);
            table.scroll(lines);
        },
        Event::CursorMoved { row } => {
            table.hover(row);
        },
        Event::Resized { rows_visible } => {
            table.resize(rows_visible);
        },
        Event::Other => {},
    }
    Task::Idle
}

/// Handles a message while the table is shown, and says what is left for the
/// presentation layer to do.
pub fn update(table: &mut LogReader, msg: LogReaderMessage) -> (task: Task)
    requires
        old(table).wf(),
    ensures
        final(table).wf(),
        updated(old(table)@, msg, final(table)@, task),
{
    match msg {
        LogReaderMessage::ScrollChanged(value) => {
            table.move_slider(value);
        },
        LogReaderMessage::TableEntered => {
            table.set_mouse_on_table(true);
        },
        LogReaderMessage::TableLeft => {
            table.set_mouse_on_table(false);
        },
        LogReaderMessage::Event(event) => {
            return handle(table, event);
        },
        LogReaderMessage::IDInput(txt) => {
            table.set_filter(FilterColumn::LogName, txt);
        },
        LogReaderMessage::DateInput(txt) => {
            table.set_filter(FilterColumn::Date, txt);
        },
        LogReaderMessage::ComputerNameInput(txt) => {
            table.set_filter(FilterColumn::ComputerName, txt);
        },
        LogReaderMessage::ProcessIDInput(txt) => {
            table.set_filter(FilterColumn::ProcessId, txt);
        },
        LogReaderMessage::ProcessUserInput(txt) => {
            table.set_filter(FilterColumn::ProcessUser, txt);
        },
        LogReaderMessage::ModuleNameInput(txt) => {
            table.set_filter(FilterColumn::ModuleName, txt);
        },
        LogReaderMessage::MessageIDInput(txt) => {
            table.set_filter(FilterColumn::MessageId, txt);
        },
        LogReaderMessage::LogLevelInput(txt) => {
            table.set_filter(FilterColumn::LogLevel, txt);
        },
        LogReaderMessage::FacilityInput(txt) => {
            table.set_filter(FilterColumn::Facility, txt);
        },
        LogReaderMessage::LogMessageInput(txt) => {
            table.set_filter(FilterColumn::LogMessage, txt);
        },
        LogReaderMessage::SearchInputChanged(txt) => {
            table.set_searching_text(txt);
        },
        LogReaderMessage::WindowClosed => {},
        LogReaderMessage::TextEditorEdit { edit: _ } => {},
    }
    Task::Idle
}

} // verus!
